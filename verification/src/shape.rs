use vstd::prelude::*;

verus! {

/// The nearest `i32` to `v`.
pub open spec fn clamp_i32(v: int) -> int {
    if v < i32::MIN as int {
        i32::MIN as int
    } else if v > i32::MAX as int {
        i32::MAX as int
    } else {
        v
    }
}

/// Half of a stroke width, rounded up so that a box grown by it still covers
/// the stroke.
pub open spec fn half_width(line_width: int) -> int {
    (line_width + 1) / 2
}

fn saturate(v: i64) -> (r: i32)
    ensures
        r as int == clamp_i32(v as int),
{
    if v < -2147483648i64 {
        i32::MIN
    } else if v > 2147483647i64 {
        i32::MAX
    } else {
        v as i32
    }
}

fn half_width_of(line_width: i32) -> (r: i64)
    ensures
        r as int == half_width(line_width as int),
{
    let w: i64 = line_width as i64;
    if w >= 0 {
        (w + 1) / 2
    } else {
        let m: i64 = -w;
        -(m / 2)
    }
}

/// A point or an extent in the plane.
#[derive(Clone, Copy, Debug, PartialEq, Eq, Structural)]
pub struct Vec2 {
    pub x: i32,
    pub y: i32,
}

impl Vec2 {
    pub fn new(x: i32, y: i32) -> (r: Self)
        ensures
            r == (Vec2 { x, y }),
    {
        Vec2 { x, y }
    }

    /// Both components set to `v`.
    pub fn splat(v: i32) -> (r: Self)
        ensures
            r == (Vec2 { x: v, y: v }),
    {
        Vec2 { x: v, y: v }
    }

    pub open spec fn spec_min(self, other: Vec2) -> Vec2 {
        Vec2 {
            x: if self.x <= other.x { self.x } else { other.x },
            y: if self.y <= other.y { self.y } else { other.y },
        }
    }

    pub open spec fn spec_max(self, other: Vec2) -> Vec2 {
        Vec2 {
            x: if self.x >= other.x { self.x } else { other.x },
            y: if self.y >= other.y { self.y } else { other.y },
        }
    }

    /// The point moved by `d` along both axes, each component kept in range.
    pub open spec fn spec_shift(self, d: int) -> Vec2 {
        Vec2 { x: clamp_i32(self.x + d) as i32, y: clamp_i32(self.y + d) as i32 }
    }

    /// The sum of two vectors, each component kept in range.
    pub open spec fn spec_plus(self, other: Vec2) -> Vec2 {
        Vec2 {
            x: clamp_i32(self.x + other.x) as i32,
            y: clamp_i32(self.y + other.y) as i32,
        }
    }

    /// The difference of two vectors, each component kept in range.
    pub open spec fn spec_minus(self, other: Vec2) -> Vec2 {
        Vec2 {
            x: clamp_i32(self.x - other.x) as i32,
            y: clamp_i32(self.y - other.y) as i32,
        }
    }

    /// Component-wise minimum.
    pub fn min(self, other: Vec2) -> (r: Vec2)
        ensures
            r == self.spec_min(other),
    {
        Vec2 {
            x: if self.x <= other.x { self.x } else { other.x },
            y: if self.y <= other.y { self.y } else { other.y },
        }
    }

    /// Component-wise maximum.
    pub fn max(self, other: Vec2) -> (r: Vec2)
        ensures
            r == self.spec_max(other),
    {
        Vec2 {
            x: if self.x >= other.x { self.x } else { other.x },
            y: if self.y >= other.y { self.y } else { other.y },
        }
    }

    /// Saturating component-wise sum.
    pub fn plus(self, other: Vec2) -> (r: Vec2)
        ensures
            r == self.spec_plus(other),
    {
        Vec2 {
            x: saturate(self.x as i64 + other.x as i64),
            y: saturate(self.y as i64 + other.y as i64),
        }
    }

    /// Saturating component-wise difference.
    pub fn minus(self, other: Vec2) -> (r: Vec2)
        ensures
            r == self.spec_minus(other),
    {
        Vec2 {
            x: saturate(self.x as i64 - other.x as i64),
            y: saturate(self.y as i64 - other.y as i64),
        }
    }

    fn shift(self, d: i64) -> (r: Vec2)
        requires
            -0x1_0000_0000 <= d <= 0x1_0000_0000,
        ensures
            r == self.spec_shift(d as int),
    {
        Vec2 { x: saturate(self.x as i64 + d), y: saturate(self.y as i64 + d) }
    }
}

/// Four channels: a colour as red, green, blue and alpha, or a glow as a
/// colour and a falloff exponent. The library stores and copies the channels
/// and never computes with them.
#[derive(Clone, Copy, Debug, PartialEq, Eq, Structural)]
pub struct Vec4 {
    pub x: i32,
    pub y: i32,
    pub z: i32,
    pub w: i32,
}

impl Vec4 {
    pub fn new(x: i32, y: i32, z: i32, w: i32) -> (r: Self)
        ensures
            r == (Vec4 { x, y, z, w }),
    {
        Vec4 { x, y, z, w }
    }

    pub open spec fn zero() -> Vec4 {
        Vec4 { x: 0, y: 0, z: 0, w: 0 }
    }
}

/// An axis-aligned box. A box whose `min` exceeds its `max` on an axis holds
/// no point.
#[derive(Clone, Copy, Debug, PartialEq, Eq, Structural)]
pub struct BoundingBox {
    pub min: Vec2,
    pub max: Vec2,
}

impl BoundingBox {
    /// The box that holds no point and is the identity of `union`.
    pub open spec fn spec_empty() -> BoundingBox {
        BoundingBox {
            min: Vec2 { x: i32::MAX, y: i32::MAX },
            max: Vec2 { x: i32::MIN, y: i32::MIN },
        }
    }

    /// The box that holds every point.
    pub open spec fn spec_infinite() -> BoundingBox {
        BoundingBox {
            min: Vec2 { x: i32::MIN, y: i32::MIN },
            max: Vec2 { x: i32::MAX, y: i32::MAX },
        }
    }

    /// The box with each side moved outward by `amount` (inward where it is
    /// negative), each coordinate kept in range.
    pub open spec fn spec_grow(self, amount: int) -> BoundingBox {
        BoundingBox { min: self.min.spec_shift(-amount), max: self.max.spec_shift(amount) }
    }

    /// The smallest box that covers both.
    pub open spec fn spec_union(self, other: BoundingBox) -> BoundingBox {
        BoundingBox { min: self.min.spec_min(other.min), max: self.max.spec_max(other.max) }
    }

    /// Whether the point `(x, y)` lies in the box, sides included.
    pub open spec fn contains_point(self, x: int, y: int) -> bool {
        self.min.x <= x <= self.max.x && self.min.y <= y <= self.max.y
    }

    pub fn empty() -> (r: Self)
        ensures
            r == Self::spec_empty(),
    {
        BoundingBox { min: Vec2::splat(i32::MAX), max: Vec2::splat(i32::MIN) }
    }

    pub fn infinite() -> (r: Self)
        ensures
            r == Self::spec_infinite(),
    {
        BoundingBox { min: Vec2::splat(i32::MIN), max: Vec2::splat(i32::MAX) }
    }

    /// Moves each side outward by `amount`; a negative amount shrinks the box.
    pub fn grow(&mut self, amount: i32)
        ensures
            *final(self) == old(self).spec_grow(amount as int),
    {
        self.grow_wide(amount as i64);
    }

    fn grow_wide(&mut self, amount: i64)
        requires
            -0x1_0000_0000 <= amount <= 0x1_0000_0000,
        ensures
            *final(self) == old(self).spec_grow(amount as int),
    {
        self.min = self.min.shift(-amount);
        self.max = self.max.shift(amount);
    }

    pub fn union(&self, other: &BoundingBox) -> (r: BoundingBox)
        ensures
            r == self.spec_union(*other),
    {
        BoundingBox { min: self.min.min(other.min), max: self.max.max(other.max) }
    }
}

impl Default for BoundingBox {
    fn default() -> (r: Self)
        ensures
            r == BoundingBox::spec_empty(),
    {
        BoundingBox::empty()
    }
}

/// An opaque handle to a texture, issued by whoever owns the textures.
#[derive(Clone, Copy, Debug, PartialEq, Eq, Structural)]
pub struct TextureId(pub u64);

/// The bit of `ShapeFlags` that marks a texture as a single-channel distance
/// field.
pub const TEXTURE_SDF_BIT: u8 = 1;

/// The bit of `ShapeFlags` that marks a texture as a multi-channel distance
/// field.
pub const TEXTURE_MTSDF_BIT: u8 = 2;

/// How a shape's texture is sampled: a set of flag bits.
#[derive(Clone, Copy, Debug, PartialEq, Eq, Structural)]
pub struct ShapeFlags {
    pub bits: u8,
}

impl ShapeFlags {
    /// No flag set: the texture is sampled as plain colour.
    pub fn empty() -> (r: Self)
        ensures
            r.bits == 0,
    {
        ShapeFlags { bits: 0 }
    }

    pub fn texture_sdf() -> (r: Self)
        ensures
            r.bits == TEXTURE_SDF_BIT,
    {
        ShapeFlags { bits: TEXTURE_SDF_BIT }
    }

    pub fn texture_mtsdf() -> (r: Self)
        ensures
            r.bits == TEXTURE_MTSDF_BIT,
    {
        ShapeFlags { bits: TEXTURE_MTSDF_BIT }
    }

    /// Keeps the bits that name a flag and drops the others.
    pub fn from_bits_truncate(bits: u8) -> (r: Self)
        ensures
            r.bits == bits & (TEXTURE_SDF_BIT | TEXTURE_MTSDF_BIT),
    {
        ShapeFlags { bits: bits & (TEXTURE_SDF_BIT | TEXTURE_MTSDF_BIT) }
    }

    pub fn bits(&self) -> (r: u8)
        ensures
            r == self.bits,
    {
        self.bits
    }

    /// Whether every flag of `other` is set in `self`.
    pub fn contains(&self, other: ShapeFlags) -> (r: bool)
        ensures
            r == (self.bits & other.bits == other.bits),
    {
        self.bits & other.bits == other.bits
    }

    /// Sets every flag of `other`.
    pub fn insert(&mut self, other: ShapeFlags)
        ensures
            final(self).bits == old(self).bits | other.bits,
    {
        self.bits = self.bits | other.bits;
    }
}

impl Default for ShapeFlags {
    fn default() -> (r: Self)
        ensures
            r.bits == 0,
    {
        ShapeFlags { bits: 0 }
    }
}

/// The radius of each corner of a rounded rectangle.
#[derive(Clone, Copy, Debug, PartialEq, Eq, Structural)]
pub struct CornerRadius {
    pub top_left: i32,
    pub top_right: i32,
    pub bottom_right: i32,
    pub bottom_left: i32,
}

impl From<i32> for CornerRadius {
    fn from(val: i32) -> (r: Self) {
        CornerRadius { top_left: val, top_right: val, bottom_right: val, bottom_left: val }
    }
}

impl vstd::std_specs::convert::FromSpecImpl<i32> for CornerRadius {
    open spec fn obeys_from_spec() -> bool {
        true
    }

    open spec fn from_spec(val: i32) -> Self {
        CornerRadius { top_left: val, top_right: val, bottom_right: val, bottom_left: val }
    }
}

impl From<[i32; 4]> for CornerRadius {
    fn from(vals: [i32; 4]) -> (r: Self) {
        CornerRadius {
            top_left: vals[0],
            top_right: vals[1],
            bottom_right: vals[2],
            bottom_left: vals[3],
        }
    }
}

impl vstd::std_specs::convert::FromSpecImpl<[i32; 4]> for CornerRadius {
    open spec fn obeys_from_spec() -> bool {
        true
    }

    open spec fn from_spec(vals: [i32; 4]) -> Self {
        CornerRadius {
            top_left: vals[0],
            top_right: vals[1],
            bottom_right: vals[2],
            bottom_left: vals[3],
        }
    }
}

/// The geometry of a shape.
#[derive(Clone, Copy, Debug)]
pub enum Primitive {
    Circle { center: Vec2, radius: i32 },
    Triangle { p1: Vec2, p2: Vec2, p3: Vec2 },
    Rect { center: Vec2, half_extents: Vec2, corner_radius: CornerRadius },
    Line { p1: Vec2, p2: Vec2 },
    CircleSector {
        center: Vec2,
        radius_inner: i32,
        radius_outer: i32,
        angle_start: i32,
        angle_end: i32,
    },
    PolyQuad { points: [Vec2; 4] },
}

impl Primitive {
    /// The axis-aligned box of the geometry. A sector gets the box of its
    /// whole outer circle; the corner radii of a rectangle do not count.
    pub open spec fn spec_bounds(self) -> BoundingBox {
        match self {
            Primitive::Circle { center, radius } => BoundingBox {
                min: center.spec_shift(-radius),
                max: center.spec_shift(radius as int),
            },
            Primitive::Triangle { p1, p2, p3 } => BoundingBox {
                min: p1.spec_min(p2).spec_min(p3),
                max: p1.spec_max(p2).spec_max(p3),
            },
            Primitive::Rect { center, half_extents, corner_radius } => BoundingBox {
                min: center.spec_minus(half_extents),
                max: center.spec_plus(half_extents),
            },
            Primitive::Line { p1, p2 } => BoundingBox {
                min: p1.spec_min(p2),
                max: p1.spec_max(p2),
            },
            Primitive::CircleSector {
                center,
                radius_inner,
                radius_outer,
                angle_start,
                angle_end,
            } => BoundingBox {
                min: center.spec_shift(-radius_outer),
                max: center.spec_shift(radius_outer as int),
            },
            Primitive::PolyQuad { points } => BoundingBox {
                min: points[0].spec_min(points[1]).spec_min(points[2]).spec_min(points[3]),
                max: points[0].spec_max(points[1]).spec_max(points[2]).spec_max(points[3]),
            },
        }
    }

    pub fn bounds(&self) -> (r: BoundingBox)
        ensures
            r == self.spec_bounds(),
    {
        match *self {
            Primitive::Circle { center, radius } => BoundingBox {
                min: center.shift(-(radius as i64)),
                max: center.shift(radius as i64),
            },
            Primitive::Triangle { p1, p2, p3 } => {
                let min = p1.min(p2).min(p3);
                let max = p1.max(p2).max(p3);
                BoundingBox { min, max }
            },
            Primitive::Rect { center, half_extents, .. } => BoundingBox {
                min: center.minus(half_extents),
                max: center.plus(half_extents),
            },
            Primitive::Line { p1, p2 } => {
                let min = p1.min(p2);
                let max = p1.max(p2);
                BoundingBox { min, max }
            },
            Primitive::CircleSector { center, radius_outer, .. } => BoundingBox {
                min: center.shift(-(radius_outer as i64)),
                max: center.shift(radius_outer as i64),
            },
            Primitive::PolyQuad { points } => {
                let mut min = points[0];
                let mut max = points[0];
                let mut i: usize = 1;
                while i < 4
                    invariant
                        1 <= i <= 4,
                        i == 1 ==> min == points[0] && max == points[0],
                        i == 2 ==> min == points[0].spec_min(points[1]) && max
                            == points[0].spec_max(points[1]),
                        i == 3 ==> min == points[0].spec_min(points[1]).spec_min(points[2])
                            && max == points[0].spec_max(points[1]).spec_max(points[2]),
                        i == 4 ==> min == points[0].spec_min(points[1]).spec_min(
                            points[2],
                        ).spec_min(points[3]) && max == points[0].spec_max(points[1]).spec_max(
                            points[2],
                        ).spec_max(points[3]),
                    decreases 4 - i,
                {
                    min = min.min(points[i]);
                    max = max.max(points[i]);
                    i = i + 1;
                }
                BoundingBox { min, max }
            },
        }
    }
}

/// One drawable unit: a geometry and how it is styled.
#[derive(Clone, Copy, Debug)]
pub struct Shape {
    pub primitive: Primitive,
    pub color: Vec4,
    /// Added to the distance field before it is drawn: a negative value
    /// makes the shape larger, a positive one smaller.
    pub distance_offset: i32,
    /// Zero for a filled shape; otherwise the width of the outline that is
    /// drawn in place of the fill.
    pub line_width: i32,
    /// Shapes with one group id are composed as a unit.
    pub group_id: u32,
    /// The texture that the shape samples, with the field as a clip mask.
    pub texture_id: Option<TextureId>,
    pub flags: ShapeFlags,
    /// A second colour and, in `w`, its falloff exponent. All zero for none.
    pub glow: Vec4,
}

impl Shape {
    /// The box of the geometry, moved inward by the distance offset and then
    /// outward by half the line width.
    pub open spec fn spec_bounds(self) -> BoundingBox {
        self.primitive.spec_bounds().spec_grow(-self.distance_offset).spec_grow(
            half_width(self.line_width as int),
        )
    }

    /// The box by which the shape is culled and binned. It covers the box of
    /// `spec_bounds`; today the two are equal.
    pub open spec fn spec_culling_bounds(self) -> BoundingBox {
        self.primitive.spec_bounds().spec_grow(-self.distance_offset).spec_grow(
            half_width(self.line_width as int),
        )
    }

    /// Where no coordinate leaves the range of `i32` on the way, the box of a
    /// shape is the box of its geometry with each side moved outward by half
    /// the line width less the distance offset.
    pub proof fn lemma_bounds_in_range(self)
        requires
            ({
                let b = self.primitive.spec_bounds();
                let d = -self.distance_offset;
                &&& i32::MIN <= b.min.x - d <= i32::MAX
                &&& i32::MIN <= b.min.y - d <= i32::MAX
                &&& i32::MIN <= b.max.x + d <= i32::MAX
                &&& i32::MIN <= b.max.y + d <= i32::MAX
            }),
            ({
                let b = self.primitive.spec_bounds();
                let d = half_width(self.line_width as int) - self.distance_offset;
                &&& i32::MIN <= b.min.x - d <= i32::MAX
                &&& i32::MIN <= b.min.y - d <= i32::MAX
                &&& i32::MIN <= b.max.x + d <= i32::MAX
                &&& i32::MIN <= b.max.y + d <= i32::MAX
            }),
        ensures
            ({
                let b = self.primitive.spec_bounds();
                let d = half_width(self.line_width as int) - self.distance_offset;
                &&& self.spec_bounds().min.x == b.min.x - d
                &&& self.spec_bounds().min.y == b.min.y - d
                &&& self.spec_bounds().max.x == b.max.x + d
                &&& self.spec_bounds().max.y == b.max.y + d
                &&& self.spec_culling_bounds() == self.spec_bounds()
            }),
    {
    }

    /// A conservative box for culling and tile binning.
    pub fn culling_bounds(&self) -> (r: BoundingBox)
        ensures
            r == self.spec_culling_bounds(),
    {
        let mut bounds = self.primitive.bounds();
        bounds.grow_wide(-(self.distance_offset as i64));
        bounds.grow_wide(half_width_of(self.line_width));
        bounds
    }

    /// The box of the shape as drawn: offset and outline included.
    pub fn bounds(&self) -> (r: BoundingBox)
        ensures
            r == self.spec_bounds(),
    {
        let mut bounds = self.primitive.bounds();
        bounds.grow_wide(-(self.distance_offset as i64));
        bounds.grow_wide(half_width_of(self.line_width));
        bounds
    }

    pub fn with_distance_offset(&mut self, offset: i32) -> (ret: &mut Self)
        ensures
            *ret == (Shape { distance_offset: offset, ..*old(self) }),
            *final(self) == *final(ret),
    {
        self.distance_offset = offset;
        self
    }

    pub fn with_line_width(&mut self, line_width: i32) -> (ret: &mut Self)
        ensures
            *ret == (Shape { line_width: line_width, ..*old(self) }),
            *final(self) == *final(ret),
    {
        self.line_width = line_width;
        self
    }

    pub fn with_texture_id(&mut self, texture_id: TextureId) -> (ret: &mut Self)
        ensures
            *ret == (Shape { texture_id: Some(texture_id), ..*old(self) }),
            *final(self) == *final(ret),
    {
        self.texture_id = Some(texture_id);
        self
    }

    pub fn with_flags(&mut self, flags: ShapeFlags) -> (ret: &mut Self)
        ensures
            *ret == (Shape { flags: flags, ..*old(self) }),
            *final(self) == *final(ret),
    {
        self.flags = flags;
        self
    }

    pub fn with_texture_is_sdf(&mut self) -> (ret: &mut Self)
        ensures
            *ret == (Shape {
                flags: ShapeFlags { bits: old(self).flags.bits | TEXTURE_SDF_BIT },
                ..*old(self)
            }),
            *final(self) == *final(ret),
    {
        self.flags.insert(ShapeFlags::texture_sdf());
        self
    }

    pub fn with_texture_is_mtsdf(&mut self) -> (ret: &mut Self)
        ensures
            *ret == (Shape {
                flags: ShapeFlags { bits: old(self).flags.bits | TEXTURE_MTSDF_BIT },
                ..*old(self)
            }),
            *final(self) == *final(ret),
    {
        self.flags.insert(ShapeFlags::texture_mtsdf());
        self
    }
}

} // verus!
