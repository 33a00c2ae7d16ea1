use perf_ui::color::Color;
use perf_ui::gradient::{ColorGradient, Shade, Stop};
use perf_ui::ieee::{Double, Single};
use perf_ui::ui::root::{transparent, PerfUiRoot};
use perf_ui::ui::widget::{FontChoice, Reading};
use perf_ui::widgets::bar::{
    derive_range, get_fill, BarFill, BarFillDirection, BarReading, BarTextPosition,
    PerfUiWidgetBar, Share,
};

fn s(x: f32) -> Single {
    Single::from_bits(x.to_bits())
}

fn d(x: f64) -> Double {
    Double::from_bits(x.to_bits())
}

fn range(r: Option<(Double, Double)>) -> Option<(f64, f64)> {
    r.map(|(a, b)| (f64::from_bits(a.to_bits()), f64::from_bits(b.to_bits())))
}

fn reading(text: &str, highlight: bool, x: f64) -> BarReading {
    BarReading { reading: Reading { text: text.to_string(), color: None, highlight }, number: Some(d(x)) }
}

fn fraction(fill: BarFill) -> Option<f64> {
    match fill {
        BarFill::Unknown => None,
        BarFill::Empty => Some(0.0),
        BarFill::Full => Some(1.0),
        BarFill::Partial { value, min, max } | BarFill::Irregular { value, min, max } => {
            let v = f64::from_bits(value.to_bits());
            let lo = f64::from_bits(min.to_bits());
            let hi = f64::from_bits(max.to_bits());
            Some(((v - lo) / (hi - lo)).clamp(0.0, 1.0))
        }
    }
}

#[test]
fn bar_defaults() {
    let bar = PerfUiWidgetBar::new(7u8);
    assert_eq!(bar.entry, 7);
    assert_eq!(bar.text_position, BarTextPosition::Center);
    assert_eq!(bar.text_position, BarTextPosition::default());
    assert_eq!(bar.fill_direction, BarFillDirection::Left);
    assert_eq!(bar.fill_direction, BarFillDirection::default());
    assert_eq!(bar.text_color_override, None);
    assert_eq!(
        bar.bar_color.iter_stops(),
        vec![Stop { value: s(f32::NEG_INFINITY), color: Color::srgb(s(0.5), s(0.5), s(0.5)) }]
    );
    assert_eq!(bar.bar_background, Color::srgba(s(0.0), s(0.0), s(0.0), s(0.5)));
    assert_eq!(bar.bar_border_color, Color::srgb(s(0.0), s(0.0), s(0.0)));
    assert_eq!(bar.bar_border_px, s(1.0));
    assert_eq!(bar.bar_height_px, None);
    assert_eq!(bar.bar_length_px, None);
}

#[test]
fn range_falls_back_to_hints_without_a_gradient_extent() {
    let hints = (Some(d(2.0)), Some(d(8.0)));
    assert_eq!(range(derive_range(None, None, hints.0, hints.1)), Some((2.0, 8.0)));
    assert_eq!(range(derive_range(Some(d(5.0)), Some(d(5.0)), hints.0, hints.1)), Some((2.0, 8.0)));
    assert_eq!(range(derive_range(Some(d(0.0)), Some(d(-0.0)), hints.0, hints.1)), Some((2.0, 8.0)));
    assert_eq!(derive_range(None, None, None, hints.1), None);
    assert_eq!(derive_range(None, None, hints.0, None), None);
    assert_eq!(derive_range(None, None, None, None), None);
    assert_eq!(derive_range(Some(d(5.0)), Some(d(5.0)), None, hints.1), None);
    assert_eq!(derive_range(Some(d(5.0)), Some(d(5.0)), hints.0, None), None);
    assert_eq!(derive_range(Some(d(5.0)), Some(d(5.0)), None, None), None);
}

#[test]
fn range_falls_back_to_hints_for_a_single_stop() {
    let mut bar = PerfUiWidgetBar::new(());
    assert_eq!(range(bar.get_range(Some(d(0.0)), Some(d(100.0)))), Some((0.0, 100.0)));
    assert_eq!(bar.get_range(None, Some(d(100.0))), None);
    assert_eq!(bar.get_range(Some(d(0.0)), None), None);
    bar.bar_color = ColorGradient::new();
    assert_eq!(range(bar.get_range(Some(d(-3.0)), Some(d(3.0)))), Some((-3.0, 3.0)));
    assert_eq!(bar.get_range(None, None), None);
    bar.bar_color = ColorGradient::new().with_stop(s(42.0), Color::red());
    assert_eq!(range(bar.get_range(Some(d(1.0)), Some(d(2.0)))), Some((1.0, 2.0)));
    assert_eq!(bar.get_range(Some(d(1.0)), None), None);
}

#[test]
fn range_combines_gradient_and_hints() {
    let g = (Some(d(100.0)), Some(d(10000.0)));
    assert_eq!(range(derive_range(g.0, g.1, None, None)), Some((100.0, 10000.0)));
    assert_eq!(range(derive_range(g.0, g.1, Some(d(0.0)), None)), Some((0.0, 10000.0)));
    assert_eq!(range(derive_range(g.0, g.1, Some(d(500.0)), None)), Some((100.0, 10000.0)));
    assert_eq!(range(derive_range(g.0, g.1, None, Some(d(20000.0)))), Some((100.0, 20000.0)));
    assert_eq!(range(derive_range(g.0, g.1, None, Some(d(50.0)))), Some((100.0, 10000.0)));
    assert_eq!(range(derive_range(g.0, g.1, Some(d(0.0)), Some(d(20000.0)))), Some((0.0, 20000.0)));
    assert_eq!(range(derive_range(g.0, g.1, Some(d(f64::NAN)), Some(d(f64::NAN)))), Some((100.0, 10000.0)));
}

#[test]
fn entity_count_bar_is_filled_by_its_gradient() {
    let mut bar = PerfUiWidgetBar::new(());
    bar.bar_color = ColorGradient::new_preset_gyr(s(100.0), s(1000.0), s(10000.0)).unwrap();
    let r = bar.get_range(None, None);
    assert_eq!(range(r), Some((100.0, 10000.0)));
    let fill = get_fill(Some(d(5500.0)), r);
    assert_eq!(fill, BarFill::Partial { value: d(5500.0), min: d(100.0), max: d(10000.0) });
    let f = fraction(fill).unwrap();
    assert!((f - (5500.0 - 100.0) / (10000.0 - 100.0)).abs() < 1e-12);
    assert!((f - 0.5455).abs() < 1e-4);
}

#[test]
fn fill_is_clamped_to_the_range() {
    let r = Some((d(10.0), d(20.0)));
    assert_eq!(get_fill(Some(d(10.0)), r), BarFill::Empty);
    assert_eq!(get_fill(Some(d(-5.0)), r), BarFill::Empty);
    assert_eq!(get_fill(Some(d(f64::NEG_INFINITY)), r), BarFill::Empty);
    assert_eq!(get_fill(Some(d(20.0)), r), BarFill::Full);
    assert_eq!(get_fill(Some(d(1e300)), r), BarFill::Full);
    assert_eq!(get_fill(Some(d(f64::INFINITY)), r), BarFill::Full);
    assert_eq!(get_fill(Some(d(15.0)), r), BarFill::Partial { value: d(15.0), min: d(10.0), max: d(20.0) });
    for v in [-1e9, 0.0, 9.999, 10.0, 10.001, 12.5, 19.999, 20.0, 20.001, 1e9] {
        let f = fraction(get_fill(Some(d(v)), r)).unwrap();
        assert!((0.0..=1.0).contains(&f), "{} gave {}", v, f);
        assert_eq!(f, ((v - 10.0) / 10.0f64).clamp(0.0, 1.0));
    }
}

#[test]
fn fill_is_unknown_without_value_or_range() {
    assert_eq!(get_fill(None, Some((d(0.0), d(1.0)))), BarFill::Unknown);
    assert_eq!(get_fill(Some(d(0.5)), None), BarFill::Unknown);
    assert_eq!(get_fill(None, None), BarFill::Unknown);
}

#[test]
fn fill_over_no_proper_range_is_irregular() {
    let v = d(1.0);
    assert_eq!(get_fill(Some(v), Some((d(5.0), d(5.0)))), BarFill::Irregular { value: v, min: d(5.0), max: d(5.0) });
    assert_eq!(get_fill(Some(v), Some((d(6.0), d(5.0)))), BarFill::Irregular { value: v, min: d(6.0), max: d(5.0) });
    let nan = d(f64::NAN);
    assert_eq!(get_fill(Some(nan), Some((d(0.0), d(5.0)))), BarFill::Irregular { value: nan, min: d(0.0), max: d(5.0) });
    assert_eq!(get_fill(Some(v), Some((nan, d(5.0)))), BarFill::Irregular { value: v, min: nan, max: d(5.0) });
}

#[test]
fn fill_direction_shares_the_rest() {
    assert_eq!(BarFillDirection::Left.unfilled_shares(), (Share::Nothing, Share::All));
    assert_eq!(BarFillDirection::Right.unfilled_shares(), (Share::All, Share::Nothing));
    assert_eq!(BarFillDirection::Center.unfilled_shares(), (Share::Half, Share::Half));
}

#[test]
fn bar_tick_with_a_value() {
    let root = PerfUiRoot::default();
    let mut bar = PerfUiWidgetBar::new(());
    bar.bar_color = ColorGradient::new_preset_gyr(s(100.0), s(1000.0), s(10000.0)).unwrap();
    let up = bar.update_bar(&root, Some(reading("  5500 ", false, 5500.0)), None, None);
    assert_eq!(up.background, root.inner_background_color);
    assert_eq!(
        up.bar_color,
        Some(Shade::Blend {
            low: Stop { value: s(1000.0), color: Color::yellow() },
            high: Stop { value: s(10000.0), color: Color::red() },
        })
    );
    assert_eq!(up.fill, BarFill::Partial { value: d(5500.0), min: d(100.0), max: d(10000.0) });
    assert_eq!(up.unfilled, (Share::Nothing, Share::All));
    let text = up.text.unwrap();
    assert_eq!(text.text, "5500");
    assert_eq!(text.font, FontChoice::Value);
    assert_eq!(text.color, Some(Shade::Solid(root.default_value_color)));
}

#[test]
fn bar_tick_highlighted() {
    let root = PerfUiRoot::default();
    let mut bar = PerfUiWidgetBar::new(());
    bar.text_color_override = Some(Color::green());
    let mut r = reading("99", true, 99.0);
    r.reading.color = Some(Shade::Solid(Color::red()));
    let up = bar.update_bar(&root, Some(r), Some(d(0.0)), Some(d(50.0)));
    assert_eq!(up.background, root.inner_background_color_highlight);
    assert_eq!(up.bar_color, Some(Shade::Solid(Color::srgb(s(0.5), s(0.5), s(0.5)))));
    assert_eq!(up.fill, BarFill::Full);
    let text = up.text.unwrap();
    assert_eq!(text.text, "99");
    assert_eq!(text.font, FontChoice::Highlight);
    assert_eq!(text.color, None);
}

#[test]
fn bar_tick_without_a_value() {
    let mut root = PerfUiRoot::default();
    root.text_err = " \tN/A\n ".to_string();
    let bar = PerfUiWidgetBar::new(());
    let up = bar.update_bar(&root, None, Some(d(0.0)), Some(d(50.0)));
    assert_eq!(up.background, root.inner_background_color);
    assert_eq!(up.bar_color, None);
    assert_eq!(up.fill, BarFill::Unknown);
    assert_eq!(up.unfilled, (Share::Nothing, Share::All));
    let text = up.text.unwrap();
    assert_eq!(text.text, "N/A");
    assert_eq!(text.font, FontChoice::Value);
    assert_eq!(text.color, Some(Shade::Solid(root.err_color)));
}

#[test]
fn bar_tick_without_text_or_number() {
    let root = PerfUiRoot::default();
    let mut bar = PerfUiWidgetBar::new(());
    bar.text_position = BarTextPosition::NoText;
    bar.bar_color = ColorGradient::new();
    let up = bar.update_bar(&root, Some(reading("1", false, 1.0)), Some(d(0.0)), Some(d(2.0)));
    assert!(up.text.is_none());
    assert_eq!(up.bar_color, Some(Shade::Solid(transparent())));
    assert_eq!(up.fill, BarFill::Partial { value: d(1.0), min: d(0.0), max: d(2.0) });
    let plain = BarReading { reading: Reading { text: "x".to_string(), color: None, highlight: true }, number: None };
    let up = bar.update_bar(&root, Some(plain), Some(d(0.0)), Some(d(2.0)));
    assert_eq!(up.bar_color, None);
    assert_eq!(up.fill, BarFill::Unknown);
    assert_eq!(up.background, root.inner_background_color_highlight);
}

#[test]
fn fill_direction_places_the_unfilled_part() {
    let root = PerfUiRoot::default();
    let range = (Some(d(0.0)), Some(d(10.0)));
    for (direction, shares) in [
        (BarFillDirection::Left, (Share::Nothing, Share::All)),
        (BarFillDirection::Right, (Share::All, Share::Nothing)),
        (BarFillDirection::Center, (Share::Half, Share::Half)),
    ] {
        let mut bar = PerfUiWidgetBar::new(());
        bar.fill_direction = direction;
        let mut fills = Vec::new();
        for x in [-1.0, 0.0, 2.5, 10.0, 99.0] {
            let up = bar.update_bar(&root, Some(reading("x", false, x)), range.0, range.1);
            assert_eq!(up.unfilled, shares, "{:?} at {}", direction, x);
            fills.push(up.fill);
        }
        assert_eq!(
            fills,
            vec![
                BarFill::Empty,
                BarFill::Empty,
                BarFill::Partial { value: d(2.5), min: d(0.0), max: d(10.0) },
                BarFill::Full,
                BarFill::Full,
            ]
        );
        let up = bar.update_bar(&root, Some(reading("x", false, f64::NAN)), range.0, range.1);
        assert_eq!(up.unfilled, shares);
    }
}

#[test]
fn an_unknown_fill_ignores_the_direction() {
    let root = PerfUiRoot::default();
    for direction in [BarFillDirection::Left, BarFillDirection::Right, BarFillDirection::Center] {
        let mut bar = PerfUiWidgetBar::new(());
        bar.fill_direction = direction;
        let up = bar.update_bar(&root, None, Some(d(0.0)), Some(d(10.0)));
        assert_eq!((up.fill, up.unfilled), (BarFill::Unknown, (Share::Nothing, Share::All)));
        let up = bar.update_bar(&root, Some(reading("x", false, 5.0)), None, Some(d(10.0)));
        assert_eq!((up.fill, up.unfilled), (BarFill::Unknown, (Share::Nothing, Share::All)));
        let plain = BarReading { reading: Reading { text: "x".to_string(), color: None, highlight: false }, number: None };
        let up = bar.update_bar(&root, Some(plain), Some(d(0.0)), Some(d(10.0)));
        assert_eq!((up.fill, up.unfilled), (BarFill::Unknown, (Share::Nothing, Share::All)));
    }
}

#[test]
fn bar_goes_on_with_stops_out_of_order() {
    let root = PerfUiRoot::default();
    let mut bar = PerfUiWidgetBar::new(());
    bar.bar_color = ColorGradient::new_preset_gyr(s(100.0), s(1000.0), s(10000.0)).unwrap();
    bar.bar_color.min_stop_mut().unwrap().value = s(5000.0);
    let up = bar.update_bar(&root, Some(reading(" 7 ", true, 7.0)), Some(d(0.0)), Some(d(10.0)));
    assert_eq!(up.bar_color, Some(Shade::Solid(transparent())));
    assert_eq!(up.background, root.inner_background_color_highlight);
    assert_eq!(up.text.unwrap().text, "7");
    assert_eq!(up.fill, BarFill::Partial { value: d(7.0), min: d(0.0), max: d(10000.0) });
}
