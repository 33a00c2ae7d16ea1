use perf_ui::color::{Color, ColorSpace};
use perf_ui::gradient::{ColorGradient, Shade, Stop};
use perf_ui::ieee::Single;

fn s(x: f32) -> Single {
    Single::from_bits(x.to_bits())
}

fn gray(level: f32) -> Color {
    Color::srgb(s(level), s(level), s(level))
}

fn values(g: &ColorGradient) -> Vec<f32> {
    g.iter_stops().iter().map(|stop| f32::from_bits(stop.value.to_bits())).collect()
}

#[test]
fn preset_colors_are_pure() {
    assert_eq!(
        Color::red(),
        Color { space: ColorSpace::Srgba, first: s(1.0), second: s(0.0), third: s(0.0), alpha: s(1.0) }
    );
    assert_eq!(
        Color::yellow(),
        Color { space: ColorSpace::Srgba, first: s(1.0), second: s(1.0), third: s(0.0), alpha: s(1.0) }
    );
    assert_eq!(
        Color::green(),
        Color { space: ColorSpace::Srgba, first: s(0.0), second: s(1.0), third: s(0.0), alpha: s(1.0) }
    );
    assert_eq!(Color::srgba(s(0.1), s(0.2), s(0.3), s(0.4)).alpha, s(0.4));
}

#[test]
fn empty_gradient_has_no_color() {
    let g = ColorGradient::new();
    assert_eq!(g.get_color_for_value(s(1.0)), None);
    assert_eq!(g.min_stop(), None);
    assert_eq!(g.max_stop(), None);
    assert!(g.iter_stops().is_empty());
    assert!(ColorGradient::default().iter_stops().is_empty());
}

#[test]
fn single_color_is_used_for_every_value() {
    let g = ColorGradient::single(gray(0.5));
    for x in [f32::NEG_INFINITY, -1e30, -1.0, 0.0, 1.0, 1e30, f32::INFINITY] {
        assert_eq!(g.get_color_for_value(s(x)), Some(Shade::Solid(gray(0.5))));
    }
    assert_eq!(g.get_color_for_value(s(f32::NAN)), None);
    assert_eq!(g.min_stop(), Some(Stop { value: s(f32::NEG_INFINITY), color: gray(0.5) }));
}

#[test]
fn preset_ryg_has_three_stops() {
    let g = ColorGradient::new_preset_ryg(s(30.0), s(60.0), s(120.0)).unwrap();
    assert_eq!(
        g.iter_stops(),
        vec![
            Stop { value: s(30.0), color: Color::red() },
            Stop { value: s(60.0), color: Color::yellow() },
            Stop { value: s(120.0), color: Color::green() },
        ]
    );
}

#[test]
fn preset_gyr_has_three_stops() {
    let g = ColorGradient::new_preset_gyr(s(100.0), s(1000.0), s(10000.0)).unwrap();
    assert_eq!(
        g.iter_stops(),
        vec![
            Stop { value: s(100.0), color: Color::green() },
            Stop { value: s(1000.0), color: Color::yellow() },
            Stop { value: s(10000.0), color: Color::red() },
        ]
    );
}

#[test]
fn presets_reject_values_out_of_order() {
    assert!(ColorGradient::new_preset_ryg(s(60.0), s(30.0), s(120.0)).is_err());
    assert!(ColorGradient::new_preset_ryg(s(30.0), s(120.0), s(60.0)).is_err());
    assert!(ColorGradient::new_preset_gyr(s(3.0), s(2.0), s(1.0)).is_err());
    assert!(ColorGradient::new_preset_gyr(s(0.0), s(-1.0), s(5.0)).is_err());
}

#[test]
fn presets_reject_nan() {
    assert!(ColorGradient::new_preset_ryg(s(f32::NAN), s(30.0), s(120.0)).is_err());
    assert!(ColorGradient::new_preset_ryg(s(30.0), s(f32::NAN), s(60.0)).is_err());
    assert!(ColorGradient::new_preset_gyr(s(1.0), s(2.0), s(f32::NAN)).is_err());
}

#[test]
fn presets_take_equal_values() {
    assert!(ColorGradient::new_preset_ryg(s(30.0), s(30.0), s(120.0)).is_ok());
    assert!(ColorGradient::new_preset_gyr(s(5.0), s(5.0), s(5.0)).is_ok());
    assert!(ColorGradient::new_preset_gyr(s(-0.0), s(0.0), s(0.0)).is_ok());
    assert!(ColorGradient::new_preset_ryg(s(f32::NEG_INFINITY), s(0.0), s(f32::INFINITY)).is_ok());
}

#[test]
fn presets_have_one_stop_for_each_value() {
    let g = ColorGradient::new_preset_ryg(s(1.0), s(1.0), s(2.0)).unwrap();
    assert_eq!(
        g.iter_stops(),
        vec![Stop { value: s(1.0), color: Color::yellow() }, Stop { value: s(2.0), color: Color::green() }]
    );
    assert!(g.is_wf());
    let g = ColorGradient::new_preset_ryg(s(1.0), s(2.0), s(2.0)).unwrap();
    assert_eq!(
        g.iter_stops(),
        vec![Stop { value: s(1.0), color: Color::red() }, Stop { value: s(2.0), color: Color::green() }]
    );
    let g = ColorGradient::new_preset_gyr(s(5.0), s(5.0), s(5.0)).unwrap();
    assert_eq!(g.iter_stops(), vec![Stop { value: s(5.0), color: Color::red() }]);
    let g = ColorGradient::new_preset_gyr(s(-0.0), s(0.0), s(3.0)).unwrap();
    assert_eq!(
        g.iter_stops(),
        vec![Stop { value: s(-0.0), color: Color::yellow() }, Stop { value: s(3.0), color: Color::red() }]
    );
    for (low, mid, high) in [(1.0f32, 1.0f32, 2.0f32), (1.0, 2.0, 2.0), (3.0, 3.0, 3.0), (0.0, 1.0, 2.0)] {
        for g in [
            ColorGradient::new_preset_ryg(s(low), s(mid), s(high)).unwrap(),
            ColorGradient::new_preset_gyr(s(low), s(mid), s(high)).unwrap(),
        ] {
            let values = values(&g);
            assert!(values.windows(2).all(|pair| pair[0] < pair[1]), "{:?}", values);
            assert!(g.is_wf());
        }
    }
}

#[test]
fn presets_are_the_stops_added_in_their_order() {
    for (low, mid, high) in [(1.0f32, 1.0f32, 2.0f32), (1.0, 2.0, 2.0), (3.0, 3.0, 3.0), (0.0, 1.0, 2.0)] {
        let preset = ColorGradient::new_preset_ryg(s(low), s(mid), s(high)).unwrap();
        let added = ColorGradient::new()
            .with_stop(s(low), Color::red())
            .with_stop(s(mid), Color::yellow())
            .with_stop(s(high), Color::green());
        assert_eq!(preset.iter_stops(), added.iter_stops());
    }
}

#[test]
fn gradient_knows_whether_it_is_well_formed() {
    assert!(ColorGradient::new().is_wf());
    assert!(ColorGradient::single(gray(0.5)).is_wf());
    let mut g = ColorGradient::new_preset_ryg(s(30.0), s(60.0), s(120.0)).unwrap();
    assert!(g.is_wf());
    g.add_stop(s(45.0), gray(0.1));
    assert!(g.is_wf());
    g.min_stop_mut().unwrap().value = s(50.0);
    assert!(!g.is_wf());
    g.min_stop_mut().unwrap().value = s(45.0);
    assert!(!g.is_wf());
    g.min_stop_mut().unwrap().value = s(44.0);
    assert!(g.is_wf());
    g.max_stop_mut().unwrap().value = s(f32::NAN);
    assert!(!g.is_wf());
    g.max_stop_mut().unwrap().value = s(f32::INFINITY);
    assert!(g.is_wf());
    g.iter_stops_mut()[1].value = s(-0.0);
    g.iter_stops_mut()[0].value = s(0.0);
    assert!(!g.is_wf());
}

#[test]
fn stops_out_of_order_give_no_color() {
    let mut g = ColorGradient::new_preset_ryg(s(30.0), s(60.0), s(120.0)).unwrap();
    assert_eq!(g.color_for_value(s(10.0)), Some(Shade::Solid(Color::red())));
    assert_eq!(g.color_for_value(s(60.0)), g.get_color_for_value(s(60.0)));
    assert_eq!(g.color_for_value(s(45.0)), g.get_color_for_value(s(45.0)));
    assert_eq!(g.color_for_value(s(f32::NAN)), None);
    g.min_stop_mut().unwrap().value = s(90.0);
    assert_eq!(g.color_for_value(s(10.0)), None);
    assert_eq!(g.color_for_value(s(100.0)), None);
    g.min_stop_mut().unwrap().value = s(0.0);
    assert_eq!(g.color_for_value(s(0.0)), Some(Shade::Solid(Color::red())));
}

#[test]
fn stops_stay_strictly_ascending() {
    let mut g = ColorGradient::new();
    let order = [5.0f32, -3.0, 12.5, 0.0, 5.0, 7.0, -3.0, 100.0, -0.0, 1e-40, f32::INFINITY, 6.0, -1e9];
    for (i, x) in order.iter().enumerate() {
        g.add_stop(s(*x), gray(i as f32 / 16.0));
        let v = values(&g);
        for pair in v.windows(2) {
            assert!(pair[0] < pair[1], "{:?}", v);
        }
    }
    assert_eq!(values(&g), vec![-1e9, -3.0, 0.0, 1e-40, 5.0, 6.0, 7.0, 12.5, 100.0, f32::INFINITY]);
}

#[test]
fn a_stop_of_the_same_value_takes_the_new_color() {
    let mut g = ColorGradient::new();
    g.add_stop(s(1.0), gray(0.1));
    g.add_stop(s(2.0), gray(0.2));
    g.add_stop(s(1.0), gray(0.9));
    assert_eq!(
        g.iter_stops(),
        vec![Stop { value: s(1.0), color: gray(0.9) }, Stop { value: s(2.0), color: gray(0.2) }]
    );
    g.add_stop(s(0.0), gray(0.3));
    g.add_stop(s(-0.0), gray(0.4));
    assert_eq!(g.min_stop(), Some(Stop { value: s(0.0), color: gray(0.4) }));
    assert_eq!(g.iter_stops().len(), 3);
}

#[test]
fn nan_stop_is_ignored() {
    let mut g = ColorGradient::new();
    g.add_stop(s(f32::NAN), gray(0.1));
    assert!(g.iter_stops().is_empty());
    g.add_stop(s(1.0), gray(0.1));
    g.add_stop(s(2.0), gray(0.2));
    let before = g.iter_stops();
    g.add_stop(s(f32::NAN), gray(0.5));
    g.add_stop(Single::from_bits(0xffc0_0000), gray(0.5));
    g.add_stop(Single::from_bits(0x7f80_0001), gray(0.5));
    assert_eq!(g.iter_stops(), before);
    assert_eq!(g.iter_stops().len(), 2);
}

#[test]
fn nan_has_no_color() {
    let g = ColorGradient::new_preset_ryg(s(30.0), s(60.0), s(120.0)).unwrap();
    assert_eq!(g.get_color_for_value(s(f32::NAN)), None);
    assert_eq!(g.get_color_for_value(Single::from_bits(0xffff_ffff)), None);
    assert_eq!(ColorGradient::new().get_color_for_value(s(f32::NAN)), None);
}

#[test]
fn color_is_clamped_at_both_ends() {
    let g = ColorGradient::new_preset_ryg(s(30.0), s(60.0), s(120.0)).unwrap();
    for x in [120.0f32, 120.5, 1e9, f32::INFINITY] {
        assert_eq!(g.get_color_for_value(s(x)), Some(Shade::Solid(Color::green())));
    }
    for x in [30.0f32, 29.9, 0.0, -5.0, f32::NEG_INFINITY] {
        assert_eq!(g.get_color_for_value(s(x)), Some(Shade::Solid(Color::red())));
    }
}

#[test]
fn a_value_at_a_stop_has_its_color() {
    let g = ColorGradient::new_preset_ryg(s(30.0), s(60.0), s(120.0)).unwrap();
    assert_eq!(g.get_color_for_value(s(60.0)), Some(Shade::Solid(Color::yellow())));
    let g = g.with_stop(s(90.0), gray(0.5)).with_stop(s(45.0), gray(0.25));
    assert_eq!(g.get_color_for_value(s(90.0)), Some(Shade::Solid(gray(0.5))));
    assert_eq!(g.get_color_for_value(s(45.0)), Some(Shade::Solid(gray(0.25))));
}

#[test]
fn a_value_between_stops_blends_its_neighbors() {
    let g = ColorGradient::new_preset_ryg(s(30.0), s(60.0), s(120.0)).unwrap();
    assert_eq!(
        g.get_color_for_value(s(45.0)),
        Some(Shade::Blend {
            low: Stop { value: s(30.0), color: Color::red() },
            high: Stop { value: s(60.0), color: Color::yellow() },
        })
    );
    assert_eq!(
        g.get_color_for_value(s(119.9)),
        Some(Shade::Blend {
            low: Stop { value: s(60.0), color: Color::yellow() },
            high: Stop { value: s(120.0), color: Color::green() },
        })
    );
    assert_eq!(
        g.get_color_for_value(s(30.000002)),
        Some(Shade::Blend {
            low: Stop { value: s(30.0), color: Color::red() },
            high: Stop { value: s(60.0), color: Color::yellow() },
        })
    );
}

#[test]
fn lookup_finds_the_neighbors_among_many_stops() {
    let mut g = ColorGradient::new();
    for i in 0..50 {
        g.add_stop(s((i * 10) as f32), gray(i as f32 / 64.0));
    }
    for i in 0..49 {
        let x = (i * 10) as f32 + 3.5;
        assert_eq!(
            g.get_color_for_value(s(x)),
            Some(Shade::Blend {
                low: Stop { value: s((i * 10) as f32), color: gray(i as f32 / 64.0) },
                high: Stop { value: s((i * 10 + 10) as f32), color: gray((i + 1) as f32 / 64.0) },
            })
        );
        assert_eq!(g.get_color_for_value(s((i * 10) as f32)), Some(Shade::Solid(gray(i as f32 / 64.0))));
    }
}

#[test]
fn equal_preset_values_share_one_stop() {
    let g = ColorGradient::new_preset_ryg(s(5.0), s(5.0), s(5.0)).unwrap();
    assert_eq!(g.iter_stops(), vec![Stop { value: s(5.0), color: Color::green() }]);
    assert_eq!(g.get_color_for_value(s(5.0)), Some(Shade::Solid(Color::green())));
    assert_eq!(g.get_color_for_value(s(4.0)), Some(Shade::Solid(Color::green())));
    assert_eq!(g.get_color_for_value(s(6.0)), Some(Shade::Solid(Color::green())));
    let g = ColorGradient::new_preset_ryg(s(1.0), s(1.0), s(2.0)).unwrap();
    assert_eq!(g.get_color_for_value(s(1.0)), Some(Shade::Solid(Color::yellow())));
    assert_eq!(g.get_color_for_value(s(0.0)), Some(Shade::Solid(Color::yellow())));
    assert_eq!(g.get_color_for_value(s(2.0)), Some(Shade::Solid(Color::green())));
    assert_eq!(
        g.get_color_for_value(s(1.5)),
        Some(Shade::Blend {
            low: Stop { value: s(1.0), color: Color::yellow() },
            high: Stop { value: s(2.0), color: Color::green() },
        })
    );
}

#[test]
fn extent_is_lowest_and_highest_stop() {
    let g = ColorGradient::new_preset_gyr(s(100.0), s(1000.0), s(10000.0)).unwrap();
    assert_eq!(g.min_stop(), Some(Stop { value: s(100.0), color: Color::green() }));
    assert_eq!(g.max_stop(), Some(Stop { value: s(10000.0), color: Color::red() }));
    let g = g.with_stop(s(50.0), gray(0.5)).with_stop(s(20000.0), gray(0.7));
    assert_eq!(g.min_stop().unwrap().value, s(50.0));
    assert_eq!(g.max_stop().unwrap().value, s(20000.0));
}

#[test]
fn stops_are_added_in_turn() {
    let mut g = ColorGradient::new();
    g.add_stops(vec![
        Stop { value: s(3.0), color: gray(0.3) },
        Stop { value: s(1.0), color: gray(0.1) },
        Stop { value: s(f32::NAN), color: gray(0.0) },
        Stop { value: s(3.0), color: gray(0.9) },
        Stop { value: s(2.0), color: gray(0.2) },
    ]);
    let expected = vec![
        Stop { value: s(1.0), color: gray(0.1) },
        Stop { value: s(2.0), color: gray(0.2) },
        Stop { value: s(3.0), color: gray(0.9) },
    ];
    assert_eq!(g.iter_stops(), expected);
    let h = ColorGradient::new().with_stops(vec![
        Stop { value: s(2.0), color: gray(0.2) },
        Stop { value: s(3.0), color: gray(0.9) },
        Stop { value: s(1.0), color: gray(0.1) },
    ]);
    assert_eq!(h.iter_stops(), expected);
    assert_eq!(h.clone().iter_stops(), expected);
}

#[test]
fn stops_can_be_changed_in_place() {
    let mut g = ColorGradient::new_preset_ryg(s(30.0), s(60.0), s(120.0)).unwrap();
    g.min_stop_mut().unwrap().value = s(10.0);
    g.max_stop_mut().unwrap().color = gray(1.0);
    assert_eq!(g.min_stop(), Some(Stop { value: s(10.0), color: Color::red() }));
    assert_eq!(g.max_stop(), Some(Stop { value: s(120.0), color: gray(1.0) }));
    for stop in g.iter_stops_mut().iter_mut() {
        stop.color = gray(0.5);
    }
    assert!(g.iter_stops().iter().all(|stop| stop.color == gray(0.5)));
    assert_eq!(g.iter_stops().len(), 3);
    let mut empty = ColorGradient::new();
    assert!(empty.min_stop_mut().is_none());
    assert!(empty.max_stop_mut().is_none());
    assert!(empty.iter_stops_mut().is_empty());
}
