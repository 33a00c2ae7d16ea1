//! What is shown for an entry at each tick.

use vstd::prelude::*;
use vstd::string::*;
use crate::color::Color;
use crate::gradient::Shade;
use crate::ui::root::PerfUiRoot;

verus! {

/// The font of a value.
#[derive(Clone, Copy, Debug, PartialEq, Eq, Structural)]
pub enum FontChoice {
    /// The font for values.
    Value,
    /// The font for highlighted values.
    Highlight,
}

/// What an entry makes of one value: its text, its color if the entry has
/// one for it, and whether it is to be highlighted.
#[derive(Debug)]
pub struct Reading {
    pub text: String,
    pub color: Option<Shade>,
    pub highlight: bool,
}

/// What a row shows after a tick.
#[derive(Debug)]
pub struct RowUpdate {
    /// The text of the value.
    pub text: String,
    /// The color of the text.
    pub color: Shade,
    /// The font of the text.
    pub font: FontChoice,
    /// The background of the row.
    pub background: Color,
}

/// The color of a value: the entry's, or the default of the overlay.
pub open spec fn color_or_default(root: &PerfUiRoot, color: Option<Shade>) -> Shade {
    match color {
        Some(shade) => shade,
        None => Shade::Solid(root.default_value_color),
    }
}

/// What a row shows for a tick, by field: for a value its text and color, and
/// the highlight font and background if it is highlighted; without a value
/// the placeholder text in the placeholder color, never highlighted.
pub open spec fn row_shows(root: &PerfUiRoot, reading: Option<Reading>, row: RowUpdate) -> bool {
    match reading {
        Some(reading) => {
            &&& row.text@ == reading.text@
            &&& row.color == color_or_default(root, reading.color)
            &&& row.font == (if reading.highlight {
                FontChoice::Highlight
            } else {
                FontChoice::Value
            })
            &&& row.background == (if reading.highlight {
                root.inner_background_color_highlight
            } else {
                root.inner_background_color
            })
        },
        None => {
            &&& row.text@ == root.text_err@
            &&& row.color == Shade::Solid(root.err_color)
            &&& row.font == FontChoice::Value
            &&& row.background == root.inner_background_color
        },
    }
}

/// One tick of a row of plain text.
///
/// `reading` is what the entry made of the value it fetched, or nothing if
/// it could fetch none. Each tick stands for itself: nothing of an earlier
/// tick enters the result.
pub fn update_row(root: &PerfUiRoot, reading: Option<Reading>) -> (row: RowUpdate)
    ensures
        row_shows(root, reading, row),
        reading is None ==> row.font == FontChoice::Value && row.background == root.inner_background_color
            && row.text@ == root.text_err@ && row.color == Shade::Solid(root.err_color),
{
    match reading {
        Some(reading) => {
            let color: Shade = match reading.color {
                Some(shade) => shade,
                None => Shade::Solid(root.default_value_color),
            };
            if reading.highlight {
                RowUpdate {
                    text: reading.text,
                    color,
                    font: FontChoice::Highlight,
                    background: root.inner_background_color_highlight,
                }
            } else {
                RowUpdate {
                    text: reading.text,
                    color,
                    font: FontChoice::Value,
                    background: root.inner_background_color,
                }
            }
        },
        None => RowUpdate {
            text: root.text_err.clone(),
            color: Shade::Solid(root.err_color),
            font: FontChoice::Value,
            background: root.inner_background_color,
        },
    }
}

/// The rows of one kind that are built: each row with the overlay it belongs
/// to, both by their identifiers.
#[derive(Clone, Copy, Debug, PartialEq, Eq, Structural)]
pub struct BuiltWidget {
    pub widget: u64,
    pub root: u64,
}

/// A step in bringing the rows up to date with the settings.
#[derive(Clone, Copy, Debug, PartialEq, Eq, Structural)]
pub enum SetupStep {
    /// Tear down the row with this identifier.
    Despawn(u64),
    /// Build the row anew for the overlay with this identifier.
    Spawn(u64),
}

/// The first row that is built for an overlay, if there is one.
pub open spec fn built_for(widgets: Seq<BuiltWidget>, root: u64) -> Option<u64>
    decreases widgets.len(),
{
    if widgets.len() == 0 {
        None
    } else if widgets[0].root == root {
        Some(widgets[0].widget)
    } else {
        built_for(widgets.drop_first(), root)
    }
}

/// The step that tears down the row of an overlay, if one is built.
pub open spec fn teardown(widgets: Seq<BuiltWidget>, root: u64) -> Seq<SetupStep> {
    match built_for(widgets, root) {
        Some(w) => seq![SetupStep::Despawn(w)],
        None => Seq::<SetupStep>::empty(),
    }
}

/// The steps for the overlays from which the entry was taken away: the row
/// of each is torn down, if one is built.
pub open spec fn removal_steps(widgets: Seq<BuiltWidget>, removed: Seq<u64>) -> Seq<SetupStep>
    decreases removed.len(),
{
    if removed.len() == 0 {
        Seq::<SetupStep>::empty()
    } else {
        removal_steps(widgets, removed.drop_last()) + teardown(widgets, removed.last())
    }
}

/// The steps for the overlays whose entry or whose settings are new or
/// changed: the row of each is torn down, if one is built, and built anew as a
/// whole.
pub open spec fn rebuild_steps(widgets: Seq<BuiltWidget>, changed: Seq<u64>) -> Seq<SetupStep>
    decreases changed.len(),
{
    if changed.len() == 0 {
        Seq::<SetupStep>::empty()
    } else {
        rebuild_steps(widgets, changed.drop_last()) + teardown(widgets, changed.last()).push(
            SetupStep::Spawn(changed.last()),
        )
    }
}

/// The first row that is built for an overlay: see [`built_for`].
pub fn find_built(widgets: &Vec<BuiltWidget>, root: u64) -> (r: Option<u64>)
    ensures
        r == built_for(widgets@, root),
{
    let mut i: usize = 0;
    proof {
        assert(widgets@.skip(0) =~= widgets@);
    }
    while i < widgets.len()
        invariant
            i <= widgets@.len(),
            built_for(widgets@, root) == built_for(widgets@.skip(i as int), root),
        decreases widgets@.len() - i,
    {
        proof {
            assert(widgets@.skip(i as int)[0] == widgets@[i as int]);
            assert(widgets@.skip(i as int).drop_first() =~= widgets@.skip(i + 1));
        }
        if widgets[i].root == root {
            return Some(widgets[i].widget);
        }
        i = i + 1;
    }
    None
}

/// Whether a change makes the setup of the rows due: an entry or the settings
/// of an overlay are new or changed, or an entry was taken away.
pub fn rc_setup_perf_ui_widget(changed: &Vec<u64>, removed: &Vec<u64>) -> (r: bool)
    ensures
        r == (changed@.len() > 0 || removed@.len() > 0),
{
    changed.len() > 0 || removed.len() > 0
}

/// The steps that bring the rows of one kind of entry up to date.
///
/// `widgets` are the rows that are built, `removed` the overlays from which
/// the entry was taken away, `changed` the overlays whose entry or whose
/// settings are new or changed. First the rows of the removed entries are
/// torn down. Then each changed overlay has its row torn down, if it has one,
/// and built anew: a row is never changed in place. An overlay that is in
/// neither list keeps its row.
pub fn setup_perf_ui_widget(widgets: &Vec<BuiltWidget>, removed: &Vec<u64>, changed: &Vec<u64>) -> (steps:
    Vec<SetupStep>)
    ensures
        steps@ == removal_steps(widgets@, removed@) + rebuild_steps(widgets@, changed@),
{
    let mut steps: Vec<SetupStep> = Vec::new();
    let mut i: usize = 0;
    while i < removed.len()
        invariant
            i <= removed@.len(),
            steps@ == removal_steps(widgets@, removed@.take(i as int)),
        decreases removed@.len() - i,
    {
        proof {
            let next = removed@.take(i + 1);
            assert(next.drop_last() =~= removed@.take(i as int));
            assert(next.last() == removed@[i as int]);
        }
        match find_built(widgets, removed[i]) {
            Some(w) => {
                steps.push(SetupStep::Despawn(w));
                proof {
                    assert(steps@ =~= removal_steps(widgets@, removed@.take(i as int)) + seq![
                        SetupStep::Despawn(w),
                    ]);
                }
            },
            None => {
                proof {
                    assert(steps@ =~= removal_steps(widgets@, removed@.take(i as int))
                        + Seq::<SetupStep>::empty());
                }
            },
        }
        i = i + 1;
    }
    proof {
        assert(removed@.take(removed@.len() as int) =~= removed@);
    }
    let ghost first = steps@;
    let mut j: usize = 0;
    while j < changed.len()
        invariant
            j <= changed@.len(),
            steps@ == first + rebuild_steps(widgets@, changed@.take(j as int)),
        decreases changed@.len() - j,
    {
        let root: u64 = changed[j];
        let ghost before = steps@;
        proof {
            let next = changed@.take(j + 1);
            assert(next.drop_last() =~= changed@.take(j as int));
            assert(next.last() == root);
        }
        match find_built(widgets, root) {
            Some(w) => {
                steps.push(SetupStep::Despawn(w));
            },
            None => {},
        }
        steps.push(SetupStep::Spawn(root));
        proof {
            assert(steps@ =~= before + teardown(widgets@, root).push(SetupStep::Spawn(root)));
            assert(steps@ =~= first + rebuild_steps(widgets@, changed@.take(j + 1)));
        }
        j = j + 1;
    }
    proof {
        assert(changed@.take(changed@.len() as int) =~= changed@);
    }
    steps
}

/// Whether an overlay is among those that exist.
pub open spec fn root_exists(roots: Seq<u64>, root: u64) -> bool {
    exists|i: int| 0 <= i < roots.len() && #[trigger] roots[i] == root
}

/// The rows that are due for a tick: the rows that are built, in their order,
/// but for those whose overlay is gone.
pub open spec fn due_rows(widgets: Seq<BuiltWidget>, roots: Seq<u64>) -> Seq<BuiltWidget> {
    widgets.filter(|w: BuiltWidget| root_exists(roots, w.root))
}

/// Whether an overlay is among those that exist: see [`root_exists`].
fn has_root(roots: &Vec<u64>, root: u64) -> (r: bool)
    ensures
        r == root_exists(roots@, root),
{
    let mut i: usize = 0;
    while i < roots.len()
        invariant
            i <= roots@.len(),
            forall|j: int| 0 <= j < i ==> #[trigger] roots@[j] != root,
        decreases roots@.len() - i,
    {
        if roots[i] == root {
            return true;
        }
        i = i + 1;
    }
    false
}

/// The rows that are due for a tick: see [`due_rows`]. Each of them takes one
/// tick of its entry; a row whose overlay is gone is passed over.
pub fn update_perf_ui_widget(widgets: &Vec<BuiltWidget>, roots: &Vec<u64>) -> (due: Vec<BuiltWidget>)
    ensures
        due@ == due_rows(widgets@, roots@),
{
    let mut due: Vec<BuiltWidget> = Vec::new();
    let mut i: usize = 0;
    let ghost keep = |w: BuiltWidget| root_exists(roots@, w.root);
    proof {
        assert(widgets@.take(0).filter(keep) =~= Seq::<BuiltWidget>::empty());
    }
    while i < widgets.len()
        invariant
            i <= widgets@.len(),
            keep == |w: BuiltWidget| root_exists(roots@, w.root),
            due@ == widgets@.take(i as int).filter(keep),
        decreases widgets@.len() - i,
    {
        let w: BuiltWidget = widgets[i];
        proof {
            let next = widgets@.take(i + 1);
            assert(next.drop_last() =~= widgets@.take(i as int));
            assert(next.last() == w);
            reveal(Seq::filter);
        }
        if has_root(roots, w.root) {
            due.push(w);
        }
        i = i + 1;
    }
    proof {
        assert(widgets@.take(widgets@.len() as int) =~= widgets@);
    }
    due
}

} // verus!
