use raytracing::color::{Color, Rgba};
use raytracing::rat::Rat;

fn color(rn: i64, rd: i64, gn: i64, gd: i64, bn: i64, bd: i64) -> Color {
    Color::new(Rat::new(rn, rd), Rat::new(gn, gd), Rat::new(bn, bd))
}

#[test]
fn channelwise_arithmetic() {
    let a = color(1, 2, 1, 4, 0, 1);
    let b = color(1, 4, 1, 4, 1, 1);
    assert_eq!(a.add(&b), Some(color(3, 4, 1, 2, 1, 1)));
    assert_eq!(a.sub(&b), Some(color(1, 4, 0, 1, -1, 1)));
    assert_eq!(a.mul(&b), Some(color(1, 8, 1, 16, 0, 1)));
    assert_eq!(a.scale(&Rat::from_int(2)), Some(color(1, 1, 1, 2, 0, 1)));
    assert_eq!(a.div(&Rat::from_int(2)), Some(color(1, 4, 1, 8, 0, 1)));
}

#[test]
fn sum_folds_from_black() {
    let cs = vec![
        color(1, 2, 0, 1, 1, 8),
        color(1, 4, 1, 1, 1, 8),
        color(1, 4, 1, 1, 1, 4),
    ];
    assert_eq!(Color::sum_of(&cs), Some(color(1, 1, 2, 1, 1, 2)));
    assert_eq!(Color::sum_of(&vec![]), Some(Color::black()));
}

#[test]
fn black_detection() {
    assert!(Color::black().is_black());
    assert!(!color(0, 1, 1, 1000, 0, 1).is_black());
}

#[test]
fn bytes_of_nominal_channels() {
    // channel * 256 truncated: 1/2 -> 128, 1/4 -> 64, 255/256 -> 255
    let c = color(1, 2, 1, 4, 255, 256);
    assert_eq!(
        c.to_bytes(),
        Some(Rgba { r: 128, g: 64, b: 255, a: 255 })
    );
}

#[test]
fn bytes_truncate_toward_zero() {
    // 1/3 * 256 = 85.33... truncates to 85
    let c = color(1, 3, 2, 3, 0, 1);
    assert_eq!(
        c.to_bytes(),
        Some(Rgba { r: 85, g: 170, b: 0, a: 255 })
    );
}

#[test]
fn bytes_wrap_instead_of_clamping() {
    // a channel of exactly 1.0 scales to 256, which wraps to 0; 3/2
    // scales to 384, which wraps to 128; -1/2 scales to -128, which
    // wraps to 128: out-of-range channels are not clamped
    let c = color(1, 1, 3, 2, -1, 2);
    assert_eq!(
        c.to_bytes(),
        Some(Rgba { r: 0, g: 128, b: 128, a: 255 })
    );
}
