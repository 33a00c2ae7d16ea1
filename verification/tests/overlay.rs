use perf_ui::color::{Color, ColorSpace};
use perf_ui::gradient::Shade;
use perf_ui::ieee::Single;
use perf_ui::ui::root::{transparent, PerfUiPosition, PerfUiRoot};
use perf_ui::ui::widget::{
    find_built, rc_setup_perf_ui_widget, setup_perf_ui_widget, update_perf_ui_widget, update_row,
    BuiltWidget, FontChoice, Reading, SetupStep,
};
use perf_ui::ui::{rc_any_visible, sort_perf_ui_widgets, Child, RootVisibility, Visibility};

fn s(x: f32) -> Single {
    Single::from_bits(x.to_bits())
}

fn child(entity: u64, key: i32) -> Child {
    Child { entity, key: Some(key) }
}

fn built(widget: u64, root: u64) -> BuiltWidget {
    BuiltWidget { widget, root }
}

#[test]
fn root_defaults() {
    let root = PerfUiRoot::default();
    assert_eq!(root.background_color, Color::srgba(s(0.0), s(0.0), s(0.0), s(0.5)));
    assert_eq!(root.inner_background_color, transparent());
    assert_eq!(
        transparent(),
        Color { space: ColorSpace::LinearRgba, first: s(0.0), second: s(0.0), third: s(0.0), alpha: s(0.0) }
    );
    assert_eq!(root.inner_background_color_highlight, Color::srgba(s(1.0), s(0.0), s(0.0), s(1.0 / 16.0)));
    assert!(root.display_labels);
    assert!(!root.layout_horizontal);
    assert_eq!(root.text_err, "N/A");
    assert_eq!(root.err_color, Color::srgb(s(0.5), s(0.5), s(0.5)));
    assert_eq!(root.default_value_color, Color::srgb(s(0.75), s(0.75), s(0.75)));
    assert_eq!(root.label_color, Color::srgb(s(1.0), s(1.0), s(1.0)));
    assert_eq!(root.fontsize_label, s(12.0));
    assert_eq!(root.fontsize_value, s(12.0));
    assert_eq!(root.z_index, i32::MAX);
    assert_eq!(root.position, PerfUiPosition::TopRight);
    assert_eq!(root.position, PerfUiPosition::default());
    assert_eq!(root.margin, s(16.0));
    assert_eq!(root.padding, s(2.0));
    assert_eq!(root.inner_margin, s(0.0));
    assert_eq!(root.inner_padding, s(0.0));
    assert_eq!(root.values_col_width, s(128.0));
}

#[test]
fn position_sets_the_margin_at_two_edges() {
    let m = s(16.0);
    let edges = |p: PerfUiPosition| (p.top(m), p.bottom(m), p.left(m), p.right(m));
    assert_eq!(edges(PerfUiPosition::TopLeft), (Some(m), None, Some(m), None));
    assert_eq!(edges(PerfUiPosition::TopRight), (Some(m), None, None, Some(m)));
    assert_eq!(edges(PerfUiPosition::BottomLeft), (None, Some(m), Some(m), None));
    assert_eq!(edges(PerfUiPosition::BottomRight), (None, Some(m), None, Some(m)));
}

#[test]
fn row_shows_a_value() {
    let root = PerfUiRoot::default();
    let row = update_row(&root, Some(Reading { text: "60".to_string(), color: None, highlight: false }));
    assert_eq!(row.text, "60");
    assert_eq!(row.color, Shade::Solid(root.default_value_color));
    assert_eq!(row.font, FontChoice::Value);
    assert_eq!(row.background, root.inner_background_color);
    let shade = Shade::Solid(Color::red());
    let row = update_row(&root, Some(Reading { text: "10".to_string(), color: Some(shade), highlight: true }));
    assert_eq!(row.text, "10");
    assert_eq!(row.color, shade);
    assert_eq!(row.font, FontChoice::Highlight);
    assert_eq!(row.background, root.inner_background_color_highlight);
}

#[test]
fn row_shows_the_placeholder_without_a_value() {
    let mut root = PerfUiRoot::default();
    root.text_err = "--".to_string();
    root.err_color = Color::srgb(s(0.1), s(0.2), s(0.3));
    let row = update_row(&root, None);
    assert_eq!(row.text, "--");
    assert_eq!(row.color, Shade::Solid(root.err_color));
    assert_eq!(row.font, FontChoice::Value);
    assert_eq!(row.background, root.inner_background_color);
}

#[test]
fn overlay_visibility() {
    let v = |visibility, inherited, displayed| RootVisibility { visibility, inherited, displayed };
    assert!(v(None, None, None).is_shown());
    assert!(v(Some(Visibility::Visible), Some(false), None).is_shown());
    assert!(!v(Some(Visibility::Hidden), Some(true), Some(true)).is_shown());
    assert!(v(Some(Visibility::Inherited), None, None).is_shown());
    assert!(v(Some(Visibility::Inherited), Some(true), None).is_shown());
    assert!(!v(Some(Visibility::Inherited), Some(false), None).is_shown());
    assert!(!v(None, None, Some(false)).is_shown());
    assert!(!v(Some(Visibility::Visible), None, Some(false)).is_shown());
    assert!(v(Some(Visibility::Visible), None, Some(true)).is_shown());
    assert!(!rc_any_visible(&vec![]));
    assert!(!rc_any_visible(&vec![v(Some(Visibility::Hidden), None, None), v(None, None, Some(false))]));
    assert!(rc_any_visible(&vec![v(Some(Visibility::Hidden), None, None), v(None, None, None)]));
}

#[test]
fn rows_are_sorted_by_key() {
    let rows = vec![child(10, 3), child(11, 1), child(12, 2), child(13, -5), child(14, i32::MAX), child(15, i32::MIN)];
    let sorted: Vec<u64> = sort_perf_ui_widgets(&rows).iter().map(|c| c.entity).collect();
    assert_eq!(sorted, vec![15, 13, 11, 12, 10, 14]);
    assert!(sort_perf_ui_widgets(&vec![]).is_empty());
}

#[test]
fn rows_of_equal_key_keep_their_order() {
    let rows = vec![
        child(1, 2),
        child(2, 1),
        child(3, 2),
        Child { entity: 4, key: None },
        child(5, 1),
        child(6, 0),
        child(7, 2),
        Child { entity: 8, key: None },
    ];
    let sorted: Vec<u64> = sort_perf_ui_widgets(&rows).iter().map(|c| c.entity).collect();
    assert_eq!(sorted, vec![4, 6, 8, 2, 5, 1, 3, 7]);
    let mut expected = rows.clone();
    expected.sort_by_key(|c| c.key.unwrap_or(0));
    assert_eq!(sort_perf_ui_widgets(&rows), expected);
}

#[test]
fn a_row_without_a_key_has_the_key_zero() {
    assert_eq!(Child { entity: 1, key: None }.order_key(), 0);
    assert_eq!(child(1, -7).order_key(), -7);
    let rows = vec![child(1, 1), Child { entity: 2, key: None }, child(3, -1)];
    let sorted: Vec<u64> = sort_perf_ui_widgets(&rows).iter().map(|c| c.entity).collect();
    assert_eq!(sorted, vec![3, 2, 1]);
}

#[test]
fn setup_is_due_on_any_change() {
    assert!(!rc_setup_perf_ui_widget(&vec![], &vec![]));
    assert!(rc_setup_perf_ui_widget(&vec![1], &vec![]));
    assert!(rc_setup_perf_ui_widget(&vec![], &vec![1]));
}

#[test]
fn a_new_entry_is_built() {
    let steps = setup_perf_ui_widget(&vec![], &vec![], &vec![7]);
    assert_eq!(steps, vec![SetupStep::Spawn(7)]);
}

#[test]
fn a_changed_entry_is_torn_down_and_built_anew() {
    let widgets = vec![built(100, 7), built(101, 8)];
    let steps = setup_perf_ui_widget(&widgets, &vec![], &vec![8]);
    assert_eq!(steps, vec![SetupStep::Despawn(101), SetupStep::Spawn(8)]);
    let steps = setup_perf_ui_widget(&widgets, &vec![], &vec![8, 9, 7]);
    assert_eq!(
        steps,
        vec![
            SetupStep::Despawn(101),
            SetupStep::Spawn(8),
            SetupStep::Spawn(9),
            SetupStep::Despawn(100),
            SetupStep::Spawn(7),
        ]
    );
}

#[test]
fn a_removed_entry_is_torn_down() {
    let widgets = vec![built(100, 7), built(101, 8)];
    assert_eq!(setup_perf_ui_widget(&widgets, &vec![7], &vec![]), vec![SetupStep::Despawn(100)]);
    assert_eq!(setup_perf_ui_widget(&widgets, &vec![9], &vec![]), vec![]);
    assert_eq!(
        setup_perf_ui_widget(&widgets, &vec![8, 7], &vec![7]),
        vec![SetupStep::Despawn(101), SetupStep::Despawn(100), SetupStep::Despawn(100), SetupStep::Spawn(7)]
    );
    assert_eq!(setup_perf_ui_widget(&widgets, &vec![], &vec![]), vec![]);
}

#[test]
fn the_first_row_of_an_overlay_is_found() {
    let widgets = vec![built(100, 7), built(101, 8), built(102, 7)];
    assert_eq!(find_built(&widgets, 7), Some(100));
    assert_eq!(find_built(&widgets, 8), Some(101));
    assert_eq!(find_built(&widgets, 9), None);
    assert_eq!(find_built(&vec![], 7), None);
}

#[test]
fn rows_of_a_missing_overlay_are_passed_over() {
    let widgets = vec![built(100, 7), built(101, 8), built(102, 9), built(103, 7)];
    assert_eq!(update_perf_ui_widget(&widgets, &vec![7, 9]), vec![built(100, 7), built(102, 9), built(103, 7)]);
    assert_eq!(update_perf_ui_widget(&widgets, &vec![]), vec![]);
    assert_eq!(update_perf_ui_widget(&vec![], &vec![7]), vec![]);
    assert_eq!(update_perf_ui_widget(&widgets, &vec![9, 8, 7]), widgets);
}
