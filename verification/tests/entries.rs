use perf_ui::color::Color;
use perf_ui::entries::diagnostics::{
    find_highest, find_lowest, PerfUiEntryCpuUsage, PerfUiEntryEntityCount, PerfUiEntryFPS,
    PerfUiEntryFPSAverage, PerfUiEntryFPSPctLow, PerfUiEntryFPSWorst, PerfUiEntryFrameCount,
    PerfUiEntryFrameTime, PerfUiEntryFrameTimeWorst, PerfUiEntryMemUsage, PerfUiEntrySystemCpuUsage,
    PerfUiEntrySystemMemUsage,
};
use perf_ui::entries::render::{PerfUiEntryRenderCpuTime, PerfUiEntryRenderGpuTime};
use perf_ui::entries::time::{
    since, utc_clock, Elapsed, PerfUiEntryClock, PerfUiEntryFixedOverstep, PerfUiEntryFixedTimeStep,
    PerfUiEntryRunningTime,
};
use perf_ui::entries::window::{
    format_coordinates, Coordinates, PerfUiEntryCursorPosition, PerfUiEntryWindowMode,
    PerfUiEntryWindowPresentMode, PerfUiEntryWindowResolution, PerfUiEntryWindowScaleFactor,
};
use perf_ui::entries::{
    PerfUiAllEntries, PerfUiCompleteBundle, PerfUiDefaultEntries, PerfUiFixedTimeEntries, PerfUiFramerateEntries,
    PerfUiRenderEntries, PerfUiSystemEntries, PerfUiWindowEntries,
};
use perf_ui::entry::{
    add_unit, choose_label, get_upper_hint, is_above, is_below, read_value, update, PerfUiEntry,
    PerfUiEntryDisplayRange,
};
use perf_ui::format::TimeSpan;
use perf_ui::gradient::{ColorGradient, Shade, Stop};
use perf_ui::ieee::{Double, Single};
use perf_ui::ui::root::PerfUiRoot;
use perf_ui::ui::widget::FontChoice;
use perf_ui::utils::SortKeys;
use perf_ui::widgets::bar::{BarFill, PerfUiWidgetBar, Share};

fn s(x: f32) -> Single {
    Single::from_bits(x.to_bits())
}

fn d(x: f64) -> Double {
    Double::from_bits(x.to_bits())
}

fn stop_values(g: &ColorGradient) -> Vec<f32> {
    g.iter_stops().iter().map(|stop| f32::from_bits(stop.value.to_bits())).collect()
}

fn hint(h: Option<Double>) -> Option<f64> {
    h.map(|x| f64::from_bits(x.to_bits()))
}

#[test]
fn fps_defaults() {
    let e = PerfUiEntryFPS::new(3);
    assert_eq!(e.label, "");
    assert_eq!(stop_values(&e.color_gradient), vec![30.0, 60.0, 120.0]);
    assert_eq!(e.color_gradient.min_stop().unwrap().color, Color::red());
    assert_eq!(e.color_gradient.max_stop().unwrap().color, Color::green());
    assert_eq!(e.threshold_highlight, Some(s(20.0)));
    assert_eq!(e.max_value_hint, None);
    assert!(e.smoothed);
    assert_eq!((e.digits, e.precision, e.sort_key), (4, 0, 3));
    assert_eq!(e.sort_key(), 3);
}

#[test]
fn frame_time_defaults() {
    let e = PerfUiEntryFrameTime::new(-4);
    assert_eq!(stop_values(&e.color_gradient), vec![1000.0 / 120.0, 1000.0 / 60.0, 1000.0 / 30.0]);
    assert_eq!(e.color_gradient.min_stop().unwrap().color, Color::green());
    assert_eq!(e.color_gradient.max_stop().unwrap().color, Color::red());
    assert_eq!(e.threshold_highlight, Some(s(1000.0 / 20.0)));
    assert_eq!(e.max_value_hint, None);
    assert!(e.display_units);
    assert!(!e.smoothed);
    assert_eq!((e.digits, e.precision, e.sort_key), (2, 3, -4));
    let w = PerfUiEntryFrameTimeWorst::new(1);
    assert_eq!(stop_values(&w.color_gradient), stop_values(&e.color_gradient));
    assert_eq!((w.digits, w.precision), (2, 3));
    let c = PerfUiEntryRenderCpuTime::new(1);
    let g = PerfUiEntryRenderGpuTime::new(2);
    assert_eq!(stop_values(&c.color_gradient), stop_values(&e.color_gradient));
    assert_eq!(stop_values(&g.color_gradient), stop_values(&e.color_gradient));
    assert_eq!(c.threshold_highlight, Some(s(50.0)));
    assert!(!g.smoothed && g.display_units);
}

#[test]
fn other_defaults() {
    let low = PerfUiEntryFPSPctLow::new(1);
    assert_eq!(low.filter_fraction, s(0.1));
    assert_eq!(stop_values(&low.color_gradient), vec![30.0, 60.0, 120.0]);
    let cpu = PerfUiEntryCpuUsage::new(1);
    assert_eq!(stop_values(&cpu.color_gradient), vec![25.0, 50.0, 75.0]);
    assert_eq!(cpu.threshold_highlight, Some(s(90.0)));
    assert!(cpu.smoothed);
    assert_eq!(cpu.precision, 2);
    let mem = PerfUiEntryMemUsage::new(1);
    assert_eq!(stop_values(&mem.color_gradient), vec![0.5, 1.0, 2.0]);
    assert_eq!(mem.threshold_highlight, Some(s(3.0)));
    assert_eq!(mem.max_value_hint, Some(s(4.0)));
    assert_eq!(mem.precision, 3);
    let count = PerfUiEntryEntityCount::new(1);
    assert_eq!(stop_values(&count.color_gradient), vec![100.0, 1000.0, 10000.0]);
    assert_eq!(count.threshold_highlight, Some(20000));
    assert_eq!(count.digits, 6);
    assert_eq!(PerfUiEntryFrameCount::new(1).digits, 6);
    let run = PerfUiEntryRunningTime::new(1);
    assert_eq!((run.start, run.format_hms, run.display_units, run.digits, run.precision), (None, false, true, 5, 3));
    let clock = PerfUiEntryClock::new(1);
    assert_eq!((clock.prefer_utc, clock.precision), (false, 0));
    let step = PerfUiEntryFixedTimeStep::new(1);
    assert_eq!((step.display_units, step.as_hz, step.digits, step.precision), (true, true, 3, 2));
    let over = PerfUiEntryFixedOverstep::new(1);
    assert_eq!((over.display_units, over.as_percent, over.digits, over.precision), (true, true, 3, 2));
    let scale = PerfUiEntryWindowScaleFactor::new(1);
    assert_eq!((scale.window, scale.digits, scale.precision), (None, 2, 2));
    let res = PerfUiEntryWindowResolution::new(1);
    assert_eq!((res.separator, res.display_units, res.display_axis, res.physical_pixels), ("x", false, false, false));
    assert_eq!((res.window, res.precision, res.width), (None, 0, 8));
    let cur = PerfUiEntryCursorPosition::new(1);
    assert_eq!((cur.separator, cur.display_units, cur.display_axis, cur.physical_pixels), (", ", false, true, false));
    assert_eq!(PerfUiEntryWindowMode::new(9).window, None);
    assert_eq!(PerfUiEntryWindowPresentMode::new(9).sort_key, 9);
}

#[test]
fn labels_fall_back_to_the_default() {
    assert_eq!(PerfUiEntryFPS::new(1).label(), "FPS");
    assert_eq!(PerfUiEntryFPSWorst::new(1).label(), "FPS (worst)");
    assert_eq!(PerfUiEntryFPSAverage::new(1).label(), "FPS (avg)");
    assert_eq!(PerfUiEntryFPSPctLow::new(1).label(), "FPS (low)");
    assert_eq!(PerfUiEntryFrameTime::new(1).label(), "Frame Time");
    assert_eq!(PerfUiEntryFrameTimeWorst::new(1).label(), "Frame Time (max)");
    assert_eq!(PerfUiEntryFrameCount::new(1).label(), "Frame Count");
    assert_eq!(PerfUiEntryEntityCount::new(1).label(), "Entity Count");
    assert_eq!(PerfUiEntryCpuUsage::new(1).label(), "CPU Usage");
    assert_eq!(PerfUiEntrySystemCpuUsage::new(1).label(), "System CPU Usage");
    assert_eq!(PerfUiEntryMemUsage::new(1).label(), "RAM Usage");
    assert_eq!(PerfUiEntrySystemMemUsage::new(1).label(), "System RAM Usage");
    assert_eq!(PerfUiEntryRenderCpuTime::new(1).label(), "Render CPU Time");
    assert_eq!(PerfUiEntryRenderGpuTime::new(1).label(), "Render GPU Time");
    assert_eq!(PerfUiEntryRunningTime::new(1).label(), "Running Time");
    assert_eq!(PerfUiEntryFixedTimeStep::new(1).label(), "Fixed Time Step");
    assert_eq!(PerfUiEntryFixedOverstep::new(1).label(), "Fixed Overstep");
    assert_eq!(PerfUiEntryWindowMode::new(1).label(), "Window Mode");
    assert_eq!(PerfUiEntryWindowPresentMode::new(1).label(), "Present Mode");
    assert_eq!(PerfUiEntryWindowScaleFactor::new(1).label(), "Scale Factor");
    assert_eq!(PerfUiEntryWindowResolution::new(1).label(), "Resolution");
    assert_eq!(PerfUiEntryCursorPosition::new(1).label(), "Cursor Position");
    let mut clock = PerfUiEntryClock::new(1);
    assert_eq!(clock.label(), "Clock");
    clock.prefer_utc = true;
    assert_eq!(clock.label(), "Clock (UTC)");
}

#[test]
fn a_label_that_is_set_is_used() {
    let mut e = PerfUiEntryFPS::new(1);
    e.label = "Frames".to_string();
    assert_eq!(e.label(), "Frames");
    assert_eq!(e.label(), "Frames");
    let mut clock = PerfUiEntryClock::new(1);
    clock.label = "Time".to_string();
    clock.prefer_utc = true;
    assert_eq!(clock.label(), "Time");
    assert_eq!(choose_label(&"".to_string(), "fallback"), "fallback");
    assert_eq!(choose_label(&" ".to_string(), "fallback"), " ");
}

#[test]
fn thresholds_compare_as_numbers() {
    assert!(is_below(Some(s(20.0)), s(19.9)));
    assert!(!is_below(Some(s(20.0)), s(20.0)));
    assert!(!is_below(Some(s(20.0)), s(21.0)));
    assert!(!is_below(None, s(0.0)));
    assert!(!is_below(Some(s(20.0)), s(f32::NAN)));
    assert!(!is_below(Some(s(f32::NAN)), s(1.0)));
    assert!(is_above(Some(s(50.0)), s(50.1)));
    assert!(!is_above(Some(s(50.0)), s(50.0)));
    assert!(!is_above(Some(s(50.0)), s(1.0)));
    assert!(!is_above(None, s(1e9)));
    assert!(!is_above(Some(s(50.0)), s(f32::NAN)));
    assert!(!is_above(Some(s(0.0)), s(-0.0)));
}

#[test]
fn fps_is_highlighted_below_its_threshold() {
    let mut e = PerfUiEntryFPS::new(1);
    assert!(e.value_highlight(&d(10.0)));
    assert!(!e.value_highlight(&d(20.0)));
    assert!(!e.value_highlight(&d(144.0)));
    e.threshold_highlight = None;
    assert!(!e.value_highlight(&d(10.0)));
    let t = PerfUiEntryFrameTime::new(1);
    assert!(t.value_highlight(&d(60.0)));
    assert!(!t.value_highlight(&d(50.0)));
    assert!(!t.value_highlight(&d(8.0)));
}

#[test]
fn units_follow_the_number() {
    assert_eq!(add_unit(&"1.5".to_string(), true, " ms"), "1.5 ms");
    assert_eq!(add_unit(&"1.5".to_string(), false, " ms"), "1.5");
    let mut t = PerfUiEntryFrameTime::new(1);
    assert_eq!(t.format_value(&d(16.6)), "16.600 ms");
    t.display_units = false;
    assert_eq!(t.format_value(&d(16.6)), "16.600");
    assert_eq!(PerfUiEntryFPS::new(1).format_value(&d(60.0)), "60");
    assert_eq!(PerfUiEntryCpuUsage::new(1).format_value(&d(12.0)), "12.00%");
    assert_eq!(PerfUiEntrySystemMemUsage::new(1).format_value(&d(12.0)), "12.00%");
    let mut m = PerfUiEntryMemUsage::new(1);
    assert_eq!(m.format_value(&d(1.5)), "1.500 GiB");
    m.display_units = false;
    assert_eq!(m.format_value(&d(1.5)), "1.500");
    assert_eq!(PerfUiEntryRenderGpuTime::new(1).format_value(&d(2.0)), "2.000 ms");
    let mut step = PerfUiEntryFixedTimeStep::new(1);
    assert_eq!(step.format_value(&d(64.0)), "64.00 Hz");
    step.as_hz = false;
    assert_eq!(step.format_value(&d(15.625)), "15.62 ms");
    step.display_units = false;
    assert_eq!(step.format_value(&d(15.625)), "15.62");
    assert_eq!(step.format_value(&d(1000.0)), "999.99");
    let mut over = PerfUiEntryFixedOverstep::new(1);
    assert_eq!(over.format_value(&d(50.0)), "50.00%");
    over.display_units = false;
    assert_eq!(over.format_value(&d(50.0)), "50.00%");
    over.as_percent = false;
    assert_eq!(over.format_value(&d(5.0)), "5.00");
    over.display_units = true;
    assert_eq!(over.format_value(&d(5.0)), "5.00 ms");
}

#[test]
fn counts_are_formatted_as_integers() {
    let e = PerfUiEntryFrameCount::new(1);
    assert_eq!(e.format_value(&123), "123");
    assert_eq!(e.format_value(&1234567), "999999");
    assert_eq!(e.value_color(&5), None);
    assert!(!e.value_highlight(&u32::MAX));
    let mut c = PerfUiEntryEntityCount::new(1);
    assert_eq!(c.format_value(&5500), "5500");
    c.digits = 3;
    assert_eq!(c.format_value(&5500), "999");
    assert!(c.value_highlight(&20001));
    assert!(!c.value_highlight(&20000));
    c.threshold_highlight = None;
    assert!(!c.value_highlight(&u32::MAX));
}

#[test]
fn entity_count_color_follows_the_gradient() {
    let c = PerfUiEntryEntityCount::new(1);
    assert_eq!(c.value_color(&50), Some(Shade::Solid(Color::green())));
    assert_eq!(c.value_color(&1000), Some(Shade::Solid(Color::yellow())));
    assert_eq!(c.value_color(&50000), Some(Shade::Solid(Color::red())));
    assert_eq!(
        c.value_color(&5500),
        Some(Shade::Blend {
            low: Stop { value: s(1000.0), color: Color::yellow() },
            high: Stop { value: s(10000.0), color: Color::red() },
        })
    );
}

#[test]
fn upper_hint_prefers_what_is_set() {
    let g = ColorGradient::new_preset_ryg(s(30.0), s(60.0), s(120.0)).unwrap();
    let empty = ColorGradient::new();
    assert_eq!(get_upper_hint(Some(s(500.0)), Some(s(20.0)), &g), Some(s(500.0)));
    assert_eq!(get_upper_hint(Some(s(1.0)), None, &empty), Some(s(1.0)));
    assert_eq!(get_upper_hint(None, Some(s(20.0)), &g), Some(s(120.0)));
    assert_eq!(get_upper_hint(None, Some(s(200.0)), &g), Some(s(200.0)));
    assert_eq!(get_upper_hint(None, None, &g), Some(s(120.0)));
    assert_eq!(get_upper_hint(None, Some(s(20.0)), &empty), Some(s(20.0)));
    assert_eq!(get_upper_hint(None, None, &empty), None);
    assert_eq!(get_upper_hint(None, Some(s(f32::NAN)), &g), Some(s(120.0)));
}

#[test]
fn hints_of_the_entries() {
    let mut fps = PerfUiEntryFPS::new(1);
    assert_eq!(hint(fps.max_value_hint()), Some(120.0));
    assert_eq!(hint(fps.min_value_hint()), Some(0.0));
    fps.threshold_highlight = Some(s(240.0));
    assert_eq!(hint(fps.max_value_hint()), Some(240.0));
    fps.max_value_hint = Some(s(90.0));
    assert_eq!(hint(fps.max_value_hint()), Some(90.0));
    let ft = PerfUiEntryFrameTime::new(1);
    assert_eq!(hint(ft.max_value_hint()), Some(50.0));
    assert_eq!(hint(PerfUiEntryMemUsage::new(1).max_value_hint()), Some(4.0));
    assert_eq!(hint(PerfUiEntryCpuUsage::new(1).max_value_hint()), Some(100.0));
    assert_eq!(hint(PerfUiEntrySystemCpuUsage::new(1).min_value_hint()), Some(0.0));
    assert_eq!(hint(PerfUiEntrySystemMemUsage::new(1).max_value_hint()), Some(100.0));
    assert_eq!(hint(PerfUiEntryFixedOverstep::new(1).max_value_hint()), Some(100.0));
    assert_eq!(hint(PerfUiEntryFixedOverstep::new(1).min_value_hint()), Some(0.0));
    assert_eq!(hint(PerfUiEntryRenderCpuTime::new(1).max_value_hint()), Some(50.0));
    let mut worst = PerfUiEntryFPSWorst::new(1);
    worst.threshold_highlight = None;
    worst.color_gradient = ColorGradient::new();
    assert_eq!(worst.max_value_hint(), None);
    assert_eq!(hint(worst.min_value_hint()), Some(0.0));
}

#[test]
fn entity_count_hints() {
    let mut c = PerfUiEntryEntityCount::new(1);
    assert_eq!(c.max_count_hint(), Some(20000));
    assert_eq!(hint(c.max_value_hint()), Some(20000.0));
    assert_eq!(c.min_count_hint(), Some(100));
    assert_eq!(hint(c.min_value_hint()), Some(100.0));
    c.threshold_highlight = Some(500);
    assert_eq!(c.max_count_hint(), Some(10000));
    c.threshold_highlight = None;
    assert_eq!(c.max_count_hint(), Some(10000));
    c.color_gradient = ColorGradient::new().with_stop(s(99.9), Color::red());
    assert_eq!(c.max_count_hint(), Some(99));
    assert_eq!(c.min_count_hint(), Some(99));
    c.color_gradient = ColorGradient::new().with_stop(s(-5.0), Color::red()).with_stop(s(7.5), Color::green());
    assert_eq!((c.min_count_hint(), c.max_count_hint()), (Some(0), Some(7)));
    c.color_gradient = ColorGradient::new().with_stop(s(99.9), Color::red());
    c.max_value_hint = Some(7);
    assert_eq!(c.max_count_hint(), Some(7));
    c.max_value_hint = None;
    c.color_gradient = ColorGradient::new();
    assert_eq!(c.max_count_hint(), None);
    assert_eq!(c.max_value_hint(), None);
    assert_eq!(c.min_count_hint(), None);
    assert_eq!(c.min_value_hint(), None);
}

#[test]
fn frame_rate_between_bad_and_normal_is_blended() {
    let root = PerfUiRoot::default();
    let e = PerfUiEntryFPS::new(1);
    let row = update(&e, &root, Some(d(45.0)));
    match row.color {
        Shade::Blend { low, high } => {
            assert_eq!(low, Stop { value: s(30.0), color: Color::red() });
            assert_eq!(high, Stop { value: s(60.0), color: Color::yellow() });
        }
        Shade::Solid(c) => panic!("a value between two stops gave the single color {:?}", c),
    }
    assert_eq!(row.text, "45");
    assert!(row.text.len() <= (e.digits + e.precision) as usize);
    assert_eq!(row.font, FontChoice::Value);
    assert_eq!(row.background, root.inner_background_color);
}

#[test]
fn three_failed_fetches_show_the_placeholder() {
    let root = PerfUiRoot::default();
    let e = PerfUiEntryFPS::new(1);
    for _ in 0..3 {
        let row = update(&e, &root, None);
        assert_eq!(row.text, "N/A");
        assert_eq!(row.color, Shade::Solid(root.err_color));
        assert_eq!(row.font, FontChoice::Value);
        assert_eq!(row.background, root.inner_background_color);
    }
    let row = update(&e, &root, Some(d(10.0)));
    assert_eq!(row.text, "10");
    assert_eq!(row.font, FontChoice::Highlight);
    assert_eq!(row.background, root.inner_background_color_highlight);
    assert_eq!(row.color, Shade::Solid(Color::red()));
}

#[test]
fn reading_is_of_one_value() {
    let e = PerfUiEntryFrameTime::new(1);
    let r = read_value(&e, &d(100.0));
    assert_eq!(r.text, "99.999 ms");
    assert_eq!(r.color, Some(Shade::Solid(Color::red())));
    assert!(r.highlight);
    let plain = PerfUiEntryFrameCount::new(1);
    let row = update(&plain, &PerfUiRoot::default(), Some(77));
    assert_eq!(row.text, "77");
    assert_eq!(row.color, Shade::Solid(PerfUiRoot::default().default_value_color));
}

#[test]
fn bar_of_an_entry() {
    let root = PerfUiRoot::default();
    let mut bar = PerfUiWidgetBar::new(PerfUiEntryEntityCount::new(5));
    assert_eq!(bar.sort_key(), 5);
    bar.bar_color = ColorGradient::new_preset_gyr(s(100.0), s(1000.0), s(10000.0)).unwrap();
    let up = bar.update(&root, Some(5500));
    assert_eq!(up.fill, BarFill::Partial { value: d(5500.0), min: d(100.0), max: d(20000.0) });
    assert_eq!(up.text.unwrap().text, "5500");
    assert_eq!(up.background, root.inner_background_color);
    let up = bar.update(&root, Some(30000));
    assert_eq!(up.fill, BarFill::Full);
    assert_eq!(up.background, root.inner_background_color_highlight);
    let up = bar.update(&root, None);
    assert_eq!(up.fill, BarFill::Unknown);
    assert_eq!(up.bar_color, None);
    assert_eq!(up.text.unwrap().text, "N/A");
}

#[test]
fn worst_values_pass_over_nan() {
    let history = vec![s(60.0), s(f32::NAN), s(45.5), s(120.0), s(45.5), s(f32::NAN)];
    assert_eq!(find_lowest(&history), Some(s(45.5)));
    assert_eq!(find_highest(&history), Some(s(120.0)));
    assert_eq!(PerfUiEntryFPSWorst::new(1).update_value(&history), Some(s(45.5)));
    assert_eq!(PerfUiEntryFrameTimeWorst::new(1).update_value(&history), Some(s(120.0)));
    assert_eq!(find_lowest(&vec![s(f32::NAN), s(f32::NAN)]), None);
    assert_eq!(find_highest(&vec![]), None);
    assert_eq!(find_lowest(&vec![s(0.0), s(-0.0)]), Some(s(0.0)));
    assert_eq!(find_highest(&vec![s(0.0), s(-0.0)]), Some(s(-0.0)));
    assert_eq!(find_lowest(&vec![s(3.0), s(f32::NEG_INFINITY), s(-1e30)]), Some(s(f32::NEG_INFINITY)));
}

#[test]
fn running_time_counts_from_its_start() {
    let mut e = PerfUiEntryRunningTime::new(1);
    let now = TimeSpan { secs: 100, nanos: 250_000_000 };
    assert_eq!(e.update_value(now), Some(now));
    e.start = Some(TimeSpan { secs: 40, nanos: 500_000_000 });
    assert_eq!(e.update_value(now), Some(TimeSpan { secs: 59, nanos: 750_000_000 }));
    e.start = Some(TimeSpan { secs: 40, nanos: 100_000_000 });
    assert_eq!(e.update_value(now), Some(TimeSpan { secs: 60, nanos: 150_000_000 }));
    e.start = Some(now);
    assert_eq!(e.update_value(now), Some(TimeSpan { secs: 0, nanos: 0 }));
    assert_eq!(
        since(TimeSpan { secs: 1, nanos: 0 }, TimeSpan { secs: 0, nanos: 999_999_999 }),
        TimeSpan { secs: 0, nanos: 1 }
    );
}

#[test]
fn running_time_is_shown_in_seconds_or_as_a_time() {
    let mut e = PerfUiEntryRunningTime::new(1);
    let value = Elapsed { span: TimeSpan { secs: 3725, nanos: 500_000_000 }, seconds: d(3725.5) };
    assert_eq!(e.format_value(&value), "3725.500 s");
    e.display_units = false;
    assert_eq!(e.format_value(&value), "3725.500");
    e.format_hms = true;
    assert_eq!(e.format_value(&value), "1:02:05.500");
    e.precision = 0;
    assert_eq!(e.format_value(&value), "1:02:05");
}

#[test]
fn clock_by_greenwich() {
    assert_eq!(utc_clock(TimeSpan { secs: 0, nanos: 0 }), (0, 0, 0, 0));
    assert_eq!(utc_clock(TimeSpan { secs: 86_399, nanos: 7 }), (23, 59, 59, 7));
    assert_eq!(utc_clock(TimeSpan { secs: 86_400, nanos: 0 }), (0, 0, 0, 0));
    assert_eq!(utc_clock(TimeSpan { secs: 1_700_000_000, nanos: 123 }), (22, 13, 20, 123));
    let mut e = PerfUiEntryClock::new(1);
    e.prefer_utc = true;
    assert_eq!(e.update_value(Some(TimeSpan { secs: 1_700_000_000, nanos: 123 })), Some((22, 13, 20, 123)));
    assert_eq!(e.update_value(None), None);
    assert_eq!(e.format_value(&(22, 13, 20, 123_000_000)), "22:13:20");
    e.precision = 2;
    assert_eq!(e.format_value(&(0, 13, 20, 123_000_000)), "13:20.12");
}

#[test]
fn clock_by_the_local_time_zone() {
    let e = PerfUiEntryClock::new(1);
    assert_eq!(e.update_value(None), None);
    assert_eq!(e.update_value(Some(TimeSpan { secs: u64::MAX, nanos: 0 })), None);
    assert_eq!(e.update_value(Some(TimeSpan { secs: i64::MAX as u64, nanos: 0 })), None);
    for secs in [0u64, 59, 3_600, 86_399, 1_000_000_000, 1_700_000_000, 1_700_003_661, 4_102_444_800] {
        let (h, m, sec, nanos) = e.update_value(Some(TimeSpan { secs, nanos: 42 })).unwrap();
        assert!(h < 24 && m < 60 && sec < 60);
        assert_eq!(nanos, 42);
        let (_, um, us, _) = utc_clock(TimeSpan { secs, nanos: 42 });
        assert_eq!(sec, us);
        assert_eq!((m + 60 - um) % 15, 0);
    }
}

#[test]
fn coordinates_are_shown_with_axis_and_unit() {
    let value = Coordinates { x: s(1920.0), y: s(1080.0) };
    assert_eq!(format_coordinates(&value, 0, "x", false, false), "1920x1080");
    assert_eq!(format_coordinates(&value, 0, "x", false, true), "1920 pxx1080 px");
    assert_eq!(format_coordinates(&value, 0, ", ", true, false), "X: 1920, Y: 1080");
    assert_eq!(format_coordinates(&value, 0, ", ", true, true), "X: 1920 px, Y: 1080 px");
    assert_eq!(format_coordinates(&value, 1, "x", false, false), "1920.0x1080.0");
    let odd = Coordinates { x: s(1e9), y: s(-0.25) };
    assert_eq!(format_coordinates(&odd, 1, " ", false, false), format!("{:.1} {:.1}", 1e9f32, -0.25f32));
    let none = Coordinates { x: s(f32::INFINITY), y: s(f32::NAN) };
    assert_eq!(format_coordinates(&none, 2, " ", false, false), format!("{:.2} {:.2}", f32::INFINITY, f32::NAN));
    assert_eq!(PerfUiEntryWindowResolution::new(1).format_value(&value), "1920x1080");
    assert_eq!(PerfUiEntryCursorPosition::new(1).format_value(&value), "X: 1920, Y: 1080");
    assert_eq!(PerfUiEntryWindowMode::new(1).format_value(&"Windowed".to_string()), "Windowed");
    assert_eq!(PerfUiEntryWindowPresentMode::new(1).format_value(&"AutoVsync".to_string()), "AutoVsync");
    assert_eq!(PerfUiEntryWindowScaleFactor::new(1).format_value(&s(1.5)), "1.50");
}

#[test]
fn sort_keys_rise_in_the_order_of_creation() {
    let mut keys = SortKeys::new();
    assert_eq!(keys.next_sort_key(), 1);
    assert_eq!(keys.next_sort_key(), 2);
    assert_eq!(keys.next_sort_key(), 3);
    let a = PerfUiEntryFPS::new(keys.next_sort_key());
    let b = PerfUiEntryClock::new(keys.next_sort_key());
    assert!(a.sort_key() < b.sort_key());
    assert_eq!((a.sort_key(), b.sort_key()), (4, 5));
}

#[test]
fn sets_of_entries_take_consecutive_keys() {
    let mut keys = SortKeys::new();
    let all = PerfUiAllEntries::new(&mut keys);
    assert_eq!(all.fps.sort_key, 1);
    assert_eq!(all.fps_avg.sort_key, 2);
    assert_eq!(all.fps_low.sort_key, 3);
    assert_eq!(all.fps_worst.sort_key, 4);
    assert_eq!(all.frametime.sort_key, 5);
    assert_eq!(all.frametime_worst.sort_key, 6);
    assert_eq!(all.frame_count.sort_key, 7);
    assert_eq!(all.entity_count.sort_key, 8);
    assert_eq!(all.cpu_usage.sort_key, 9);
    assert_eq!(all.mem_usage.sort_key, 10);
    assert_eq!(all.system_cpu_usage.sort_key, 11);
    assert_eq!(all.system_mem_usage.sort_key, 12);
    assert_eq!(all.render_cpu.sort_key, 13);
    assert_eq!(all.render_gpu.sort_key, 14);
    assert_eq!(all.fixed_timestep.sort_key, 15);
    assert_eq!(all.fixed_overstep.sort_key, 16);
    assert_eq!(all.time_running.sort_key, 17);
    assert_eq!(all.time_clock.sort_key, 18);
    assert_eq!(all.cursor_position.sort_key, 19);
    assert_eq!(all.window_resolution.sort_key, 20);
    assert_eq!(all.window_scale_factor.sort_key, 21);
    assert_eq!(all.window_mode.sort_key, 22);
    assert_eq!(all.window_present_mode.sort_key, 23);
    assert_eq!(keys.next_sort_key(), 24);
    let def = PerfUiDefaultEntries::new(&mut keys);
    assert_eq!(
        (def.fps_avg.sort_key, def.fps_low.sort_key, def.frametime.sort_key),
        (25, 26, 27)
    );
    assert_eq!(
        (def.render_cpu.sort_key, def.render_gpu.sort_key, def.entity_count.sort_key),
        (28, 29, 30)
    );
    let fr = PerfUiFramerateEntries::new(&mut keys);
    assert_eq!((fr.fps.sort_key, fr.frametime_worst.sort_key), (31, 36));
    let re = PerfUiRenderEntries::new(&mut keys);
    assert_eq!((re.render_cpu.sort_key, re.render_gpu.sort_key), (37, 38));
    let sy = PerfUiSystemEntries::new(&mut keys);
    assert_eq!((sy.cpu_usage.sort_key, sy.mem_usage.sort_key), (39, 40));
    let fx = PerfUiFixedTimeEntries::new(&mut keys);
    assert_eq!((fx.fixed_timestep.sort_key, fx.fixed_overstep.sort_key), (41, 42));
    let wi = PerfUiWindowEntries::new(&mut keys);
    assert_eq!((wi.cursor_position.sort_key, wi.window_present_mode.sort_key), (43, 47));
    assert_eq!(stop_values(&def.entity_count.color_gradient), vec![100.0, 1000.0, 10000.0]);
}

#[test]
fn values_are_numbers_in_double_precision() {
    assert_eq!(PerfUiEntryFPS::new(1).value_number(&d(59.5)), Some(d(59.5)));
    assert_eq!(PerfUiEntryFPSWorst::new(1).value_number(&s(59.5)), Some(d(59.5)));
    assert_eq!(PerfUiEntryFPSWorst::new(1).value_number(&s(0.1)), Some(d(0.1f32 as f64)));
    assert_eq!(PerfUiEntryEntityCount::new(1).value_number(&5500), Some(d(5500.0)));
    assert_eq!(PerfUiEntryFixedOverstep::new(1).value_number(&d(12.5)), Some(d(12.5)));
}

#[test]
fn numbers_are_formatted_by_the_settings_of_the_entry() {
    let mut e = PerfUiEntryFPS::new(1);
    assert_eq!(e.format_value(&d(59.94)), "60");
    assert_eq!(e.format_value(&d(123456.0)), "9999");
    e.precision = 2;
    e.digits = 2;
    assert_eq!(e.format_value(&d(59.94)), "59.94");
    assert_eq!(e.format_value(&d(159.94)), "99.99");
    let worst = PerfUiEntryFPSWorst::new(1);
    assert_eq!(worst.format_value(&s(29.5)), "30");
    assert_eq!(worst.format_value(&s(28.5)), "28");
    let mut t = PerfUiEntryFrameTimeWorst::new(1);
    assert_eq!(t.format_value(&s(16.6)), format!("{:.3} ms", 16.6f32));
    t.display_units = false;
    assert_eq!(t.format_value(&s(250.0)), "99.999");
    assert_eq!(PerfUiEntryMemUsage::new(1).format_value(&d(123.0)), "99.999 GiB");
    assert_eq!(PerfUiEntryFPS::new(1).format_value(&d(f64::NAN)), "NaN");
}

#[test]
fn color_and_highlight_go_by_the_number_in_single_precision() {
    let e = PerfUiEntryFPS::new(1);
    assert_eq!(e.value_color(&d(120.00000001)), Some(Shade::Solid(Color::green())));
    assert_eq!(e.value_color(&d(60.0000000001)), Some(Shade::Solid(Color::yellow())));
    assert_eq!(e.value_color(&d(f64::NAN)), None);
    assert!(!e.value_highlight(&d(19.9999999999)));
    assert!(e.value_highlight(&d(19.99999)));
    assert!(!e.value_highlight(&d(f64::NAN)));
}

#[test]
fn entity_count_bar_spans_its_gradient() {
    let root = PerfUiRoot::default();
    let mut entry = PerfUiEntryEntityCount::new(1);
    entry.threshold_highlight = None;
    assert_eq!(stop_values(&entry.color_gradient), vec![100.0, 1000.0, 10000.0]);
    assert_eq!((hint(entry.min_value_hint()), hint(entry.max_value_hint())), (Some(100.0), Some(10000.0)));
    let bar = PerfUiWidgetBar::new(entry);
    let up = bar.update(&root, Some(5500));
    assert_eq!(up.fill, BarFill::Partial { value: d(5500.0), min: d(100.0), max: d(10000.0) });
    assert_eq!(up.unfilled, (Share::Nothing, Share::All));
    let fraction = (5500.0f64 - 100.0) / (10000.0 - 100.0);
    assert!((fraction - 0.5455).abs() < 1e-4);
    let mut entry = PerfUiEntryEntityCount::new(1);
    entry.threshold_highlight = None;
    let mut bar = PerfUiWidgetBar::new(entry);
    bar.bar_color = ColorGradient::new_preset_gyr(s(100.0), s(1000.0), s(10000.0)).unwrap();
    let up = bar.update(&root, Some(5500));
    assert_eq!(up.fill, BarFill::Partial { value: d(5500.0), min: d(100.0), max: d(10000.0) });
    assert_eq!(bar.update(&root, Some(50)).fill, BarFill::Empty);
    assert_eq!(bar.update(&root, Some(10000)).fill, BarFill::Full);
}

#[test]
fn entries_go_on_with_stops_out_of_order() {
    let root = PerfUiRoot::default();
    let mut e = PerfUiEntryFPS::new(1);
    e.color_gradient.max_stop_mut().unwrap().value = s(0.0);
    assert_eq!(e.value_color(&d(45.0)), None);
    let row = update(&e, &root, Some(d(45.0)));
    assert_eq!(row.text, "45");
    assert_eq!(row.color, Shade::Solid(root.default_value_color));
    assert_eq!(hint(e.max_value_hint()), Some(20.0));
    let mut c = PerfUiEntryEntityCount::new(1);
    c.color_gradient.min_stop_mut().unwrap().value = s(f32::NAN);
    assert_eq!(c.value_color(&5500), None);
    assert_eq!(c.format_value(&5500), "5500");
}

#[test]
fn complete_overlay_has_settings_and_entries() {
    let mut keys = SortKeys::new();
    let all = PerfUiCompleteBundle::new(&mut keys);
    assert_eq!(all.root.text_err, "N/A");
    assert_eq!(all.root.position, PerfUiRoot::default().position);
    assert_eq!(all.fps.sort_key, 1);
    assert_eq!(all.fps_worst.sort_key, 2);
    assert_eq!(all.frametime.sort_key, 3);
    assert_eq!(all.frametime_worst.sort_key, 4);
    assert_eq!(all.frame_count.sort_key, 5);
    assert_eq!(all.entity_count.sort_key, 6);
    assert_eq!(all.cpu_usage.sort_key, 7);
    assert_eq!(all.mem_usage.sort_key, 8);
    assert_eq!(all.fixed_timestep.sort_key, 9);
    assert_eq!(all.fixed_overstep.sort_key, 10);
    assert_eq!(all.time_running.sort_key, 11);
    assert_eq!(all.time_clock.sort_key, 12);
    assert_eq!(all.cursor_position.sort_key, 13);
    assert_eq!(all.window_resolution.sort_key, 14);
    assert_eq!(all.window_scale_factor.sort_key, 15);
    assert_eq!(all.window_mode.sort_key, 16);
    assert_eq!(all.window_present_mode.sort_key, 17);
    assert_eq!(keys.next_sort_key(), 18);
}
