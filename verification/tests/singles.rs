use traffic::color::Color;
use traffic::label::{decimal_text, numbered};
use traffic::limits::{
    ACCELERATION_CEILING_BITS, ACCELERATION_FLOOR_BITS, FIELD_SIZE_BITS, FOLLOW_GAP_BITS,
    SPEED_LIMIT_BITS, STEPS_PER_TICK, TURNING_RATE_BITS, WANDER_SPEED_BITS, WHEEL_LIMIT_BITS,
    ZERO_BITS,
};
use traffic::point::Point;
use traffic::single::Single;
use traffic::waypoint::Waypoint;

fn s(x: f32) -> Single {
    Single::from_bits(x.to_bits())
}

fn f(x: Single) -> f32 {
    f32::from_bits(x.to_bits())
}

fn samples() -> Vec<f32> {
    vec![
        0.0,
        -0.0,
        1.0,
        -1.0,
        5.0,
        -5.0,
        29.999998,
        30.0,
        30.000002,
        -30.0,
        -30.000002,
        79.99999,
        80.0,
        80.00001,
        90.0,
        -90.0,
        359.99997,
        1000.0,
        1.0e-40,
        -1.0e-40,
        f32::MIN_POSITIVE,
        -f32::MIN_POSITIVE,
        f32::MAX,
        f32::MIN,
        f32::EPSILON,
        f32::INFINITY,
        f32::NEG_INFINITY,
        f32::NAN,
        -f32::NAN,
        f32::from_bits(0x7f80_0001),
        f32::from_bits(0xffff_ffff),
        0.1,
        -0.1,
        3.1415927,
        123456.79,
    ]
}

#[test]
fn bits_round_trip() {
    for x in samples() {
        assert_eq!(s(x).to_bits(), x.to_bits());
        assert_eq!(Single::from_bits(x.to_bits()).bits, x.to_bits());
    }
}

#[test]
fn is_nan_agrees_with_floats() {
    for x in samples() {
        assert_eq!(s(x).is_nan(), x.is_nan(), "{x}");
    }
}

#[test]
fn lt_agrees_with_floats() {
    for a in samples() {
        for b in samples() {
            assert_eq!(s(a).lt(s(b)), a < b, "{a} < {b}");
        }
    }
}

#[test]
fn gt_agrees_with_floats() {
    for a in samples() {
        for b in samples() {
            assert_eq!(s(a).gt(s(b)), a > b, "{a} > {b}");
        }
    }
}

#[test]
fn same_agrees_with_floats() {
    for a in samples() {
        for b in samples() {
            assert_eq!(s(a).same(s(b)), a == b, "{a} == {b}");
        }
    }
}

#[test]
fn both_zeros_are_the_same_number() {
    assert!(s(0.0).same(s(-0.0)));
    assert!(!s(0.0).lt(s(-0.0)));
    assert!(!s(-0.0).lt(s(0.0)));
    assert_eq!(s(0.0).key(), 0);
    assert_eq!(s(-0.0).key(), 0);
    assert_ne!(s(0.0), s(-0.0));
}

#[test]
fn nan_is_not_itself() {
    let nan = s(f32::NAN);
    assert!(!nan.same(nan));
    assert!(!nan.lt(nan));
    assert_eq!(nan, nan);
}

#[test]
fn key_orders_as_floats_do() {
    for a in samples() {
        for b in samples() {
            if !a.is_nan() && !b.is_nan() {
                assert_eq!(s(a).key() < s(b).key(), a < b, "{a} {b}");
                assert_eq!(s(a).key() == s(b).key(), a == b, "{a} {b}");
            }
        }
    }
    assert_eq!(s(1.0).key(), 0x3f80_0000);
    assert_eq!(s(-1.0).key(), -0x3f80_0000);
    assert_eq!(s(f32::INFINITY).key(), 0x7f80_0000);
}

#[test]
fn neg_agrees_with_floats() {
    for x in samples() {
        assert_eq!(s(x).neg().to_bits(), (-x).to_bits(), "{x}");
    }
    assert_eq!(s(30.0).neg(), s(-30.0));
    assert_eq!(s(0.0).neg(), s(-0.0));
}

#[test]
fn min_agrees_with_floats() {
    for a in samples() {
        for b in samples() {
            let got = f(s(a).min(s(b)));
            let want = a.min(b);
            if want.is_nan() {
                assert!(got.is_nan(), "{a} {b}");
            } else {
                assert!(got == want, "{a} {b}");
            }
        }
    }
    assert_eq!(s(5.0).min(s(90.0)), s(5.0));
    assert_eq!(s(5.0).min(s(2.5)), s(2.5));
    assert_eq!(s(5.0).min(s(f32::NAN)), s(5.0));
    assert_eq!(s(f32::NAN).min(s(2.5)), s(2.5));
}

#[test]
fn max_agrees_with_floats() {
    for a in samples() {
        for b in samples() {
            let got = f(s(a).max(s(b)));
            let want = a.max(b);
            if want.is_nan() {
                assert!(got.is_nan(), "{a} {b}");
            } else {
                assert!(got == want, "{a} {b}");
            }
        }
    }
    assert_eq!(s(-5.0).max(s(-90.0)), s(-5.0));
    assert_eq!(s(-5.0).max(s(-2.5)), s(-2.5));
    assert_eq!(s(-5.0).max(s(f32::NAN)), s(-5.0));
    assert_eq!(s(f32::NAN).max(s(-2.5)), s(-2.5));
}

#[test]
fn of_two_alike_min_and_max_give_the_second() {
    assert_eq!(s(0.0).min(s(-0.0)), s(-0.0));
    assert_eq!(s(-0.0).min(s(0.0)), s(0.0));
    assert_eq!(s(0.0).max(s(-0.0)), s(-0.0));
    assert_eq!(s(-0.0).max(s(0.0)), s(0.0));
}

#[test]
fn clamp_holds_between_bounds() {
    let low = s(-30.0);
    let high = s(30.0);
    assert_eq!(s(31.0).clamp(low, high), s(30.0));
    assert_eq!(s(-31.0).clamp(low, high), s(-30.0));
    assert_eq!(s(12.5).clamp(low, high), s(12.5));
    assert_eq!(s(30.0).clamp(low, high), s(30.0));
    assert_eq!(s(-30.0).clamp(low, high), s(-30.0));
    assert_eq!(s(f32::INFINITY).clamp(low, high), s(30.0));
    assert_eq!(s(f32::NEG_INFINITY).clamp(low, high), s(-30.0));
    assert!(s(f32::NAN).clamp(low, high).is_nan());
    assert_eq!(s(-0.0).clamp(s(0.0), s(80.0)), s(-0.0));
    for x in samples() {
        if !x.is_nan() {
            assert_eq!(f(s(x).clamp(low, high)), x.clamp(-30.0, 30.0), "{x}");
        }
    }
}

#[test]
fn limits_are_the_numbers_they_stand_for() {
    assert_eq!(ZERO_BITS, 0.0f32.to_bits());
    assert_eq!(ACCELERATION_FLOOR_BITS, 1.0f32.to_bits());
    assert_eq!(ACCELERATION_CEILING_BITS, 5.0f32.to_bits());
    assert_eq!(TURNING_RATE_BITS, 5.0f32.to_bits());
    assert_eq!(FOLLOW_GAP_BITS, 20.0f32.to_bits());
    assert_eq!(WHEEL_LIMIT_BITS, 30.0f32.to_bits());
    assert_eq!(WANDER_SPEED_BITS, 65.0f32.to_bits());
    assert_eq!(SPEED_LIMIT_BITS, 80.0f32.to_bits());
    assert_eq!(FIELD_SIZE_BITS, 1000.0f32.to_bits());
    assert_eq!(STEPS_PER_TICK, 50);
}

#[test]
fn color_new_rgb_is_opaque() {
    let c = Color::new_rgb(200, 10, 3);
    assert_eq!(c, Color { red: 200, green: 10, blue: 3, alpha: 255 });
}

#[test]
fn points_are_the_same_place_by_number() {
    let a = Point::new(s(1.5), s(0.0));
    assert_eq!(a.x, s(1.5));
    assert_eq!(a.y, s(0.0));
    assert!(a.same(Point::new(s(1.5), s(-0.0))));
    assert!(!a.same(Point::new(s(1.5), s(0.5))));
    assert!(!a.same(Point::new(s(2.5), s(0.0))));
    let nowhere = Point::new(s(f32::NAN), s(0.0));
    assert!(!nowhere.same(nowhere));
}

#[test]
fn waypoint_constructors() {
    let w = Waypoint::new(Point::new(s(3.0), s(4.0)), s(65.0));
    assert_eq!(w.location, Point { x: s(3.0), y: s(4.0) });
    assert_eq!(w.speed, s(65.0));
    assert_eq!(Waypoint::new_2f(s(3.0), s(4.0), s(65.0)), w);
}

#[test]
fn decimal_text_writes_numbers() {
    assert_eq!(decimal_text(0), "0");
    assert_eq!(decimal_text(7), "7");
    assert_eq!(decimal_text(10), "10");
    assert_eq!(decimal_text(109), "109");
    assert_eq!(decimal_text(1234567890), "1234567890");
    assert_eq!(decimal_text(u64::MAX), "18446744073709551615");
    for n in 0..2000u64 {
        assert_eq!(decimal_text(n), format!("{}", n));
    }
}

#[test]
fn numbered_joins_word_and_number() {
    assert_eq!(numbered("Sedan", 0), "Sedan 0");
    assert_eq!(numbered("Sedan", 999), "Sedan 999");
    assert_eq!(numbered("", 42), " 42");
    assert_eq!(numbered("two words", 5), "two words 5");
    assert_eq!(numbered("Sedan", 17), format!("{} {}", "Sedan", 17));
}
