use shaded_sprite::atlas::{Color, ShadedAtlas, ShadedAtlasSprite, TextureHandle};
use shaded_sprite::geom::{Rect, Vec2};
use shaded_sprite::rat::Rat;

fn r(n: i64, d: i64) -> Rat {
    Rat::new(n, d).unwrap()
}

fn v2(xn: i64, xd: i64, yn: i64, yd: i64) -> Vec2 {
    Vec2::new(r(xn, xd), r(yn, yd))
}

fn rect(min_x: i64, min_y: i64, max_x: i64, max_y: i64) -> Rect {
    Rect::new(v2(min_x, 1, min_y, 1), v2(max_x, 1, max_y, 1))
}

fn handles() -> (TextureHandle, TextureHandle) {
    (TextureHandle::new(7), TextureHandle::new(8))
}

#[test]
fn new_empty_has_no_frames() {
    let (albedo, normal_map) = handles();
    let atlas = ShadedAtlas::new_empty(albedo, normal_map, v2(64, 1, 64, 1));
    assert_eq!(atlas.len(), 0);
    assert!(atlas.is_empty());
    assert_eq!(atlas.albedo, albedo);
    assert_eq!(atlas.normal_map, normal_map);
}

#[test]
fn three_appends_keep_call_order() {
    let (albedo, normal_map) = handles();
    let mut atlas = ShadedAtlas::new_empty(albedo, normal_map, v2(64, 1, 64, 1));
    let a = rect(0, 0, 8, 8);
    let b = rect(8, 0, 16, 8);
    let c = rect(0, 8, 8, 16);
    atlas.add_frame(a);
    atlas.add_frame(b);
    atlas.add_frame(c);
    assert_eq!(atlas.len(), 3);
    assert!(!atlas.is_empty());
    assert_eq!(atlas.frame(0), a);
    assert_eq!(atlas.frame(1), b);
    assert_eq!(atlas.frame(2), c);
}

#[test]
fn earlier_indices_survive_later_appends() {
    let (albedo, normal_map) = handles();
    let mut atlas = ShadedAtlas::new_empty(albedo, normal_map, v2(64, 1, 64, 1));
    let a = rect(0, 0, 8, 8);
    atlas.add_frame(a);
    for k in 1..10i64 {
        atlas.add_frame(rect(k, 0, k + 8, 8));
        assert_eq!(atlas.frame(0), a);
    }
    assert_eq!(atlas.len(), 10);
}

#[test]
fn grid_two_by_two_has_the_four_unit_cells() {
    let (albedo, normal_map) = handles();
    let atlas = ShadedAtlas::from_grid(albedo, normal_map, v2(2, 1, 2, 1), 2, 2);
    assert_eq!(atlas.len(), 4);
    assert_eq!(atlas.frame(0), rect(0, 0, 1, 1));
    assert_eq!(atlas.frame(1), rect(1, 0, 2, 1));
    assert_eq!(atlas.frame(2), rect(0, 1, 1, 2));
    assert_eq!(atlas.frame(3), rect(1, 1, 2, 2));
    assert_eq!(atlas.size, v2(2, 1, 2, 1));
}

#[test]
fn grid_cells_are_exact_fractions() {
    let (albedo, normal_map) = handles();
    // a 1 x 1 texture split into 3 columns: cell edges at thirds, exactly
    let atlas = ShadedAtlas::from_grid(albedo, normal_map, v2(1, 1, 1, 1), 3, 1);
    assert_eq!(atlas.len(), 3);
    assert_eq!(atlas.frame(1).min.x, r(1, 3));
    assert_eq!(atlas.frame(1).max.x, r(2, 3));
    assert_eq!(atlas.frame(2).max.x, r(1, 1));
}

#[test]
fn grid_is_row_major() {
    let (albedo, normal_map) = handles();
    let atlas = ShadedAtlas::from_grid(albedo, normal_map, v2(3, 1, 2, 1), 3, 2);
    assert_eq!(atlas.len(), 6);
    // frame index = row * columns + column
    assert_eq!(atlas.frame(4), rect(1, 1, 2, 2));
    assert_eq!(atlas.frame(5), rect(2, 1, 3, 2));
}

#[test]
fn sprite_new_keeps_index_and_white_tint() {
    let s = ShadedAtlasSprite::new(5);
    assert_eq!(s.index, 5);
    assert_eq!(s.color, Color::white());
    assert_eq!(s.color.red, Rat::one());
    assert_eq!(s.color.alpha, Rat::one());
}

#[test]
fn sprite_default_is_frame_zero() {
    let s = ShadedAtlasSprite::default();
    assert_eq!(s.index, 0);
    assert_eq!(s.color, Color::white());
}
