use breakout_core::geometry::{bounce, detect, Side, Vec2i};

fn v(x: i64, y: i64) -> Vec2i {
    Vec2i { x, y }
}

#[test]
fn detect_is_deterministic() {
    // two calls on the same inputs classify the same side
    let a = detect(v(0, 0), v(1800, 1800), v(3000, 0), v(6000, 1800));
    let b = detect(v(0, 0), v(1800, 1800), v(3000, 0), v(6000, 1800));
    assert_eq!(a, b);
    assert_eq!(a, Some(Side::Left));
}

#[test]
fn detect_none_when_separated_on_x() {
    // |dx| equals the sum of the half-extents: the boxes only touch
    assert_eq!(detect(v(0, 0), v(1800, 1800), v(3900, 0), v(6000, 1800)), None);
    // and a clearly separated pair
    assert_eq!(detect(v(0, 0), v(1800, 1800), v(100000, 0), v(6000, 1800)), None);
}

#[test]
fn detect_none_when_separated_on_y() {
    assert_eq!(detect(v(0, 0), v(1800, 1800), v(0, 1800), v(6000, 1800)), None);
    assert_eq!(detect(v(0, 0), v(1800, 1800), v(0, -90000), v(6000, 1800)), None);
}

#[test]
fn detect_none_on_degenerate_sizes() {
    assert_eq!(detect(v(0, 0), v(0, 1800), v(0, 0), v(6000, 1800)), None);
    assert_eq!(detect(v(0, 0), v(1800, -5), v(0, 0), v(6000, 1800)), None);
    assert_eq!(detect(v(0, 0), v(1800, 1800), v(0, 0), v(0, 0)), None);
}

#[test]
fn detect_classifies_all_four_faces() {
    let ball = v(1800, 1800);
    let brick = v(6000, 1800);
    // probe left of the box strikes its left face, and so on around
    assert_eq!(detect(v(-2500, 0), ball, v(0, 0), brick), Some(Side::Left));
    assert_eq!(detect(v(2500, 0), ball, v(0, 0), brick), Some(Side::Right));
    assert_eq!(detect(v(0, 1500), ball, v(0, 0), brick), Some(Side::Top));
    assert_eq!(detect(v(0, -1500), ball, v(0, 0), brick), Some(Side::Bottom));
}

#[test]
fn detect_inside_on_deep_interpenetration() {
    // concentric boxes overlap totally on both axes: an exact ratio tie
    assert_eq!(detect(v(0, 0), v(1800, 1800), v(0, 0), v(1800, 1800)), Some(Side::Inside));
}

#[test]
fn bounce_left_face_reflects_x_only() {
    // moving right and down, striking the left face: x flips, y stays
    assert_eq!(bounce(Side::Left, v(400, -300)), v(-400, -300));
    // moving away from the face: no reflection
    assert_eq!(bounce(Side::Left, v(-400, -300)), v(-400, -300));
}

#[test]
fn bounce_right_face_reflects_x_only() {
    assert_eq!(bounce(Side::Right, v(-400, 120)), v(400, 120));
    assert_eq!(bounce(Side::Right, v(400, 120)), v(400, 120));
}

#[test]
fn bounce_top_and_bottom_reflect_y_only() {
    assert_eq!(bounce(Side::Top, v(250, -400)), v(250, 400));
    assert_eq!(bounce(Side::Top, v(250, 400)), v(250, 400));
    assert_eq!(bounce(Side::Bottom, v(250, 400)), v(250, -400));
    assert_eq!(bounce(Side::Bottom, v(250, -400)), v(250, -400));
}

#[test]
fn bounce_inside_reflects_nothing() {
    assert_eq!(bounce(Side::Inside, v(400, -400)), v(400, -400));
}
