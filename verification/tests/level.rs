use modular_agent_audio::level::{Double, Level};

fn level(x: f32) -> Level {
    Level { bits: x.to_bits() }
}

fn samples() -> Vec<f32> {
    vec![
        0.0, -0.0, 1.0, -1.0, 0.01, 0.5, 1.5, f32::MAX, f32::MIN, f32::INFINITY, f32::NEG_INFINITY,
        f32::NAN, -f32::NAN, f32::MIN_POSITIVE, 1.0e-45, -1.0e-45, 3.0e-39, 0.99999994, 1.0000001,
    ]
}

#[test]
fn levels_compare_as_numbers_do() {
    for a in samples() {
        for b in samples() {
            assert_eq!(level(a).is_below(level(b)), a < b, "{} < {}", a, b);
            assert_eq!(level(a).is_at_most(level(b)), a <= b, "{} <= {}", a, b);
        }
    }
}

#[test]
fn levels_clamp_as_numbers_do() {
    for a in samples() {
        assert_eq!(level(a).clamp_to_unit().bits, a.clamp(0.0, 1.0).to_bits(), "{}", a);
    }
}

#[test]
fn doubles_clamp_as_numbers_do() {
    for a in [
        0.0, -0.0, 1.0, 0.3, -1.0e-300, 1.0000000000000002, 7.0, f64::INFINITY, f64::NEG_INFINITY,
        f64::NAN, -f64::NAN, f64::MAX, f64::MIN, 5.0e-324,
    ] {
        let d = Double { bits: f64::to_bits(a) };
        assert_eq!(d.clamp_to_unit().bits, a.clamp(0.0, 1.0).to_bits(), "{}", a);
    }
}
