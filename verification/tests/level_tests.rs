use voxel_mesh::level::Level;

fn level(value: f32) -> Level {
    Level::from_bits(value.to_bits())
}

fn probes() -> Vec<f32> {
    vec![
        0.0,
        -0.0,
        1.0,
        -1.0,
        0.5,
        -0.5,
        0.25,
        0.499_999_97,
        0.500_000_06,
        1.0e-40,
        -1.0e-40,
        f32::MIN_POSITIVE,
        f32::MAX,
        f32::MIN,
        f32::EPSILON,
        f32::INFINITY,
        f32::NEG_INFINITY,
        f32::NAN,
        -f32::NAN,
        f32::from_bits(0x7F80_0001),
        f32::from_bits(0xFFFF_FFFF),
        3.25,
        -1234.5,
    ]
}

#[test]
fn exceeds_is_greater_than() {
    for a in probes() {
        for b in probes() {
            assert_eq!(level(a).exceeds(level(b)), a > b, "{a:?} > {b:?}");
        }
    }
}

#[test]
fn nan_is_told_from_numbers() {
    for a in probes() {
        assert_eq!(level(a).is_nan(), a.is_nan(), "{a:?}");
    }
}

#[test]
fn ordinal_orders_as_the_numbers_do() {
    for a in probes() {
        for b in probes() {
            if a.is_nan() || b.is_nan() {
                continue;
            }
            assert_eq!(level(a).ordinal() < level(b).ordinal(), a < b, "{a:?} < {b:?}");
            assert_eq!(level(a).ordinal() == level(b).ordinal(), a == b, "{a:?} == {b:?}");
        }
    }
}

#[test]
fn ordinal_of_known_levels() {
    assert_eq!(level(0.0).ordinal(), 0);
    assert_eq!(level(-0.0).ordinal(), 0);
    assert_eq!(level(1.0).ordinal(), 0x3F80_0000);
    assert_eq!(level(-1.0).ordinal(), -0x3F80_0000);
    assert_eq!(level(f32::INFINITY).ordinal(), 0x7F80_0000);
    assert_eq!(level(f32::NEG_INFINITY).ordinal(), -0x7F80_0000);
    assert_eq!(Level::from_bits(1).ordinal(), 1);
    assert_eq!(Level::from_bits(0x8000_0001).ordinal(), -1);
}

#[test]
fn bits_go_in_and_out_unchanged() {
    for a in probes() {
        assert_eq!(level(a).to_bits(), a.to_bits());
        assert_eq!(level(a).bits, a.to_bits());
    }
}

#[test]
fn nothing_exceeds_itself() {
    for a in probes() {
        assert!(!level(a).exceeds(level(a)));
    }
}
