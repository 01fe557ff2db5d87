use audio_friend::level::Level;

fn level(value: f32) -> Level {
    Level { bits: value.to_bits() }
}

#[test]
fn levels_are_compared_as_numbers_are() {
    let values = [
        0.0f32,
        -0.0,
        0.15,
        0.149_999_99,
        0.150_000_01,
        1.0,
        0.999_999_9,
        2.5,
        -1.0,
        -0.15,
        1.0e-40,
        -1.0e-40,
        f32::MIN_POSITIVE,
        f32::MAX,
        f32::MIN,
        f32::INFINITY,
        f32::NEG_INFINITY,
        f32::NAN,
        -f32::NAN,
    ];
    for a in values {
        for b in values {
            assert_eq!(level(a).reaches(level(b)), a >= b, "{a} {b}");
        }
    }
}

#[test]
fn the_threshold_itself_is_reached() {
    assert!(level(0.15).reaches(level(0.15)));
    assert!(level(0.2).reaches(level(0.15)));
    assert!(!level(0.1).reaches(level(0.15)));
    assert!(level(0.0).reaches(level(-0.0)));
    assert!(!level(f32::NAN).reaches(level(0.0)));
    assert!(!level(1.0).reaches(level(f32::NAN)));
}
