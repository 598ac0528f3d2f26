use mondrian::shape::{
    BoundingBox, CornerRadius, Primitive, Shape, ShapeFlags, TextureId, Vec2, Vec4,
    TEXTURE_MTSDF_BIT, TEXTURE_SDF_BIT,
};

fn v(x: i32, y: i32) -> Vec2 {
    Vec2::new(x, y)
}

fn shape_of(primitive: Primitive) -> Shape {
    Shape {
        primitive,
        color: Vec4::new(1, 2, 3, 4),
        distance_offset: 0,
        line_width: 0,
        group_id: 0,
        texture_id: None,
        flags: ShapeFlags::empty(),
        glow: Vec4::new(0, 0, 0, 0),
    }
}

#[test]
fn circle_bounds_are_center_plus_minus_radius() {
    let b = Primitive::Circle { center: v(10, 10), radius: 5 }.bounds();
    assert_eq!(b.min, v(5, 5));
    assert_eq!(b.max, v(15, 15));
}

#[test]
fn triangle_bounds_are_min_and_max_of_points() {
    let b = Primitive::Triangle { p1: v(3, 9), p2: v(-4, 2), p3: v(7, -1) }.bounds();
    assert_eq!(b.min, v(-4, -1));
    assert_eq!(b.max, v(7, 9));
}

#[test]
fn rect_bounds_ignore_corner_radius() {
    let sharp = Primitive::Rect {
        center: v(20, 30),
        half_extents: v(5, 10),
        corner_radius: CornerRadius::from(0),
    };
    let round = Primitive::Rect {
        center: v(20, 30),
        half_extents: v(5, 10),
        corner_radius: CornerRadius::from(4),
    };
    assert_eq!(sharp.bounds().min, v(15, 20));
    assert_eq!(sharp.bounds().max, v(25, 40));
    assert_eq!(round.bounds(), sharp.bounds());
}

#[test]
fn line_bounds_are_min_and_max_of_ends() {
    let b = Primitive::Line { p1: v(8, 1), p2: v(2, 6) }.bounds();
    assert_eq!(b.min, v(2, 1));
    assert_eq!(b.max, v(8, 6));
}

#[test]
fn sector_bounds_are_those_of_the_outer_circle() {
    let b = Primitive::CircleSector {
        center: v(50, 60),
        radius_inner: 5,
        radius_outer: 20,
        angle_start: 0,
        angle_end: 1,
    }
    .bounds();
    assert_eq!(b.min, v(30, 40));
    assert_eq!(b.max, v(70, 80));
}

#[test]
fn polyquad_bounds_are_min_and_max_of_points() {
    let b = Primitive::PolyQuad { points: [v(1, 1), v(9, 2), v(8, 12), v(-3, 7)] }.bounds();
    assert_eq!(b.min, v(-3, 1));
    assert_eq!(b.max, v(9, 12));
}

#[test]
fn degenerate_geometry_gives_degenerate_boxes() {
    let point = Primitive::Circle { center: v(4, 4), radius: 0 }.bounds();
    assert_eq!(point.min, point.max);
    let inverted = Primitive::Circle { center: v(4, 4), radius: -2 }.bounds();
    assert_eq!(inverted.min, v(6, 6));
    assert_eq!(inverted.max, v(2, 2));
    let flat = Primitive::Triangle { p1: v(1, 1), p2: v(1, 1), p3: v(1, 1) }.bounds();
    assert_eq!(flat.min, v(1, 1));
    assert_eq!(flat.max, v(1, 1));
}

#[test]
fn bounds_saturate_at_the_ends_of_the_range() {
    let b = Primitive::Circle { center: v(i32::MAX - 1, i32::MIN + 1), radius: 10 }.bounds();
    assert_eq!(b.min, v(i32::MAX - 11, i32::MIN));
    assert_eq!(b.max, v(i32::MAX, i32::MIN + 11));
    let r = Primitive::Rect {
        center: v(i32::MAX, 0),
        half_extents: v(i32::MAX, i32::MIN),
        corner_radius: CornerRadius::from(0),
    }
    .bounds();
    assert_eq!(r.min, v(0, i32::MAX));
    assert_eq!(r.max, v(i32::MAX, i32::MIN));
}

#[test]
fn shape_bounds_shrink_by_offset_and_grow_by_half_the_line_width() {
    let mut s = shape_of(Primitive::Circle { center: v(100, 100), radius: 10 });
    assert_eq!(s.bounds(), BoundingBox { min: v(90, 90), max: v(110, 110) });
    s.distance_offset = 3;
    assert_eq!(s.bounds(), BoundingBox { min: v(93, 93), max: v(107, 107) });
    s.distance_offset = -3;
    assert_eq!(s.bounds(), BoundingBox { min: v(87, 87), max: v(113, 113) });
    s.line_width = 4;
    assert_eq!(s.bounds(), BoundingBox { min: v(85, 85), max: v(115, 115) });
    s.distance_offset = 0;
    s.line_width = 5;
    assert_eq!(s.bounds(), BoundingBox { min: v(87, 87), max: v(113, 113) });
    s.line_width = 1;
    assert_eq!(s.bounds(), BoundingBox { min: v(89, 89), max: v(111, 111) });
    s.line_width = -3;
    assert_eq!(s.bounds(), BoundingBox { min: v(91, 91), max: v(109, 109) });
}

#[test]
fn shape_bounds_take_the_extreme_offset() {
    let mut s = shape_of(Primitive::Circle { center: v(0, 0), radius: 0 });
    s.distance_offset = i32::MIN;
    assert_eq!(s.bounds(), BoundingBox { min: v(i32::MIN, i32::MIN), max: v(i32::MAX, i32::MAX) });
    s.distance_offset = i32::MAX;
    s.line_width = i32::MAX;
    assert_eq!(
        s.bounds(),
        BoundingBox { min: v(1073741823, 1073741823), max: v(-1073741823, -1073741823) }
    );
}

#[test]
fn culling_bounds_equal_bounds() {
    let mut s = shape_of(Primitive::Line { p1: v(0, 0), p2: v(10, 20) });
    s.distance_offset = -2;
    s.line_width = 6;
    assert_eq!(s.culling_bounds(), s.bounds());
    assert_eq!(s.culling_bounds(), BoundingBox { min: v(-5, -5), max: v(15, 25) });
}

#[test]
fn grow_inflates_and_deflates() {
    let mut b = BoundingBox { min: v(0, 10), max: v(20, 30) };
    b.grow(5);
    assert_eq!(b, BoundingBox { min: v(-5, 5), max: v(25, 35) });
    b.grow(-7);
    assert_eq!(b, BoundingBox { min: v(2, 12), max: v(18, 28) });
    b.grow(0);
    assert_eq!(b, BoundingBox { min: v(2, 12), max: v(18, 28) });
}

#[test]
fn grow_saturates() {
    let mut b = BoundingBox::empty();
    b.grow(-1);
    assert_eq!(b, BoundingBox::empty());
    let mut c = BoundingBox::infinite();
    c.grow(1);
    assert_eq!(c, BoundingBox::infinite());
    let mut d = BoundingBox { min: v(0, 0), max: v(0, 0) };
    d.grow(i32::MIN);
    assert_eq!(d, BoundingBox { min: v(i32::MAX, i32::MAX), max: v(i32::MIN, i32::MIN) });
}

#[test]
fn union_covers_both() {
    let a = BoundingBox { min: v(0, 5), max: v(10, 15) };
    let b = BoundingBox { min: v(-3, 8), max: v(4, 40) };
    assert_eq!(a.union(&b), BoundingBox { min: v(-3, 5), max: v(10, 40) });
    assert_eq!(b.union(&a), a.union(&b));
}

#[test]
fn empty_is_the_identity_of_union_and_the_default() {
    let a = BoundingBox { min: v(-1, -2), max: v(3, 4) };
    assert_eq!(BoundingBox::empty().union(&a), a);
    assert_eq!(a.union(&BoundingBox::empty()), a);
    assert_eq!(BoundingBox::default(), BoundingBox::empty());
    assert_eq!(BoundingBox::empty().min, v(i32::MAX, i32::MAX));
    assert_eq!(BoundingBox::empty().max, v(i32::MIN, i32::MIN));
    assert_eq!(BoundingBox::infinite().union(&a), BoundingBox::infinite());
}

#[test]
fn vec2_operations() {
    assert_eq!(Vec2::splat(7), v(7, 7));
    assert_eq!(v(1, 9).min(v(4, 2)), v(1, 2));
    assert_eq!(v(1, 9).max(v(4, 2)), v(4, 9));
    assert_eq!(v(1, 9).plus(v(4, 2)), v(5, 11));
    assert_eq!(v(1, 9).minus(v(4, 2)), v(-3, 7));
    assert_eq!(v(i32::MAX, i32::MIN).plus(v(1, -1)), v(i32::MAX, i32::MIN));
    assert_eq!(v(i32::MIN, i32::MAX).minus(v(1, -1)), v(i32::MIN, i32::MAX));
}

#[test]
fn corner_radius_conversions() {
    let all = CornerRadius::from(3);
    assert_eq!(all, CornerRadius { top_left: 3, top_right: 3, bottom_right: 3, bottom_left: 3 });
    let each = CornerRadius::from([1, 2, 3, 4]);
    assert_eq!(each, CornerRadius { top_left: 1, top_right: 2, bottom_right: 3, bottom_left: 4 });
}

#[test]
fn shape_flags_operations() {
    assert_eq!(ShapeFlags::empty().bits(), 0);
    assert_eq!(ShapeFlags::default().bits(), 0);
    assert_eq!(ShapeFlags::texture_sdf().bits(), TEXTURE_SDF_BIT);
    assert_eq!(ShapeFlags::texture_mtsdf().bits(), TEXTURE_MTSDF_BIT);
    assert_eq!(TEXTURE_SDF_BIT, 1);
    assert_eq!(TEXTURE_MTSDF_BIT, 2);
    let mut f = ShapeFlags::empty();
    f.insert(ShapeFlags::texture_sdf());
    assert!(f.contains(ShapeFlags::texture_sdf()));
    assert!(!f.contains(ShapeFlags::texture_mtsdf()));
    f.insert(ShapeFlags::texture_mtsdf());
    assert_eq!(f.bits(), 3);
    assert!(f.contains(ShapeFlags::texture_mtsdf()));
    assert!(f.contains(ShapeFlags::empty()));
    assert_eq!(ShapeFlags::from_bits_truncate(0xFF).bits(), 3);
    assert_eq!(ShapeFlags::from_bits_truncate(0xFC).bits(), 0);
}

#[test]
fn fluent_styling_changes_one_field_each() {
    let mut s = shape_of(Primitive::Circle { center: v(0, 0), radius: 1 });
    s.with_line_width(4).with_distance_offset(-2).with_texture_id(TextureId(77));
    assert_eq!(s.line_width, 4);
    assert_eq!(s.distance_offset, -2);
    assert_eq!(s.texture_id, Some(TextureId(77)));
    assert_eq!(s.flags.bits(), 0);
    s.with_texture_is_sdf();
    assert_eq!(s.flags.bits(), 1);
    s.with_texture_is_mtsdf();
    assert_eq!(s.flags.bits(), 3);
    s.with_flags(ShapeFlags::texture_mtsdf());
    assert_eq!(s.flags.bits(), 2);
    assert_eq!(s.color, Vec4::new(1, 2, 3, 4));
    assert_eq!(s.group_id, 0);
    assert_eq!(s.line_width, 4);
}
