use crate::shape::{BoundingBox, Primitive, Shape, ShapeFlags, Vec2, Vec4};
use vstd::prelude::*;

verus! {

/// The header word of a record: the primitive's tag in the low 8 bits, and
/// above them the texture index, or all ones for no texture.
pub open spec fn pack_header(shape_type: u32, texture_id: Option<u32>) -> u32 {
    let texture: u32 = match texture_id {
        Some(index) => index,
        None => u32::MAX,
    };
    (texture << 8) | (shape_type & 0xFF)
}

/// The flags word of a record: the group id in the low 24 bits, the style
/// flags in the 8 bits above them.
pub open spec fn pack_flags(flags: u8, group_id: u32) -> u32 {
    ((flags as u32) << 24) | (group_id & 0x00FF_FFFF)
}

/// The texture field of a header that names no texture.
pub const NO_TEXTURE: u32 = 0x00FF_FFFF;

/// The tag that the records carry for each kind of primitive.
pub open spec fn spec_shape_type(primitive: Primitive) -> u32 {
    match primitive {
        Primitive::Circle { .. } => 0,
        Primitive::Triangle { .. } => 1,
        Primitive::Rect { .. } => 2,
        Primitive::Line { .. } => 3,
        Primitive::CircleSector { .. } => 4,
        Primitive::PolyQuad { .. } => 5,
    }
}

/// The first word of a record.
#[derive(Clone, Copy, Debug, PartialEq, Eq, Structural)]
pub struct ShapeHeader(pub u32);

impl ShapeHeader {
    /// The header of a record that stands for no shape.
    pub fn sentinel() -> (r: Self)
        ensures
            r.0 == u32::MAX,
    {
        ShapeHeader(u32::MAX)
    }

    pub fn new(shape_type: u32, texture_id: Option<u32>) -> (r: Self)
        ensures
            r.0 == pack_header(shape_type, texture_id),
    {
        let texture: u32 = match texture_id {
            Some(index) => index,
            None => u32::MAX,
        };
        let texture_id_bits: u32 = texture << 8;
        let shape_type_bits: u32 = shape_type & 0xFF;
        ShapeHeader(texture_id_bits | shape_type_bits)
    }

    /// The primitive's tag.
    pub fn shape_type(&self) -> (r: u32)
        ensures
            r == self.0 & 0xFF,
    {
        self.0 & 0xFF
    }

    /// The texture index, or `None` where the header names no texture.
    pub fn texture_id(&self) -> (r: Option<u32>)
        ensures
            r == (if self.0 >> 8 == NO_TEXTURE {
                None
            } else {
                Some(self.0 >> 8)
            }),
    {
        let index: u32 = self.0 >> 8;
        if index == NO_TEXTURE {
            None
        } else {
            Some(index)
        }
    }

    /// A header gives back the tag and the texture index that it was made
    /// of, as far as they fit: 8 bits of the tag, and an index below
    /// `NO_TEXTURE`.
    pub proof fn lemma_round_trip(shape_type: u32, texture_id: Option<u32>)
        ensures
            pack_header(shape_type, texture_id) & 0xFF == shape_type & 0xFF,
            shape_type < 256 ==> pack_header(shape_type, texture_id) & 0xFF == shape_type,
            texture_id is None ==> pack_header(shape_type, texture_id) >> 8 == NO_TEXTURE,
            texture_id is Some ==> pack_header(shape_type, texture_id) >> 8 == texture_id->0
                & 0x00FF_FFFF,
            texture_id is Some && texture_id->0 < NO_TEXTURE ==> pack_header(shape_type, texture_id)
                >> 8 == texture_id->0,
    {
        let texture: u32 = match texture_id {
            Some(index) => index,
            None => u32::MAX,
        };
        assert(((texture << 8) | (shape_type & 0xFF)) & 0xFF == shape_type & 0xFF)
            by (bit_vector);
        assert(shape_type < 256 ==> shape_type & 0xFF == shape_type) by (bit_vector);
        assert(((texture << 8) | (shape_type & 0xFF)) >> 8 == texture & 0x00FF_FFFF)
            by (bit_vector);
        assert(texture < 0x00FF_FFFF ==> texture & 0x00FF_FFFF == texture) by (bit_vector);
        assert(0xFFFF_FFFFu32 & 0x00FF_FFFF == 0x00FF_FFFF) by (bit_vector);
    }
}

/// The word of a record that holds the group id and the style flags.
#[derive(Clone, Copy, Debug, PartialEq, Eq, Structural)]
pub struct GpuShapeFlags(pub u32);

impl GpuShapeFlags {
    pub fn new(flags: ShapeFlags, group_id: u32) -> (r: Self)
        ensures
            r.0 == pack_flags(flags.bits, group_id),
    {
        let flags_bits: u32 = (flags.bits() as u32) << 24;
        let group_id_bits: u32 = group_id & 0x00FF_FFFF;
        GpuShapeFlags(flags_bits | group_id_bits)
    }

    /// The low 24 bits of the group id.
    pub fn group_id(&self) -> (r: u32)
        ensures
            r == self.0 & 0x00FF_FFFF,
    {
        self.0 & 0x00FF_FFFF
    }

    /// The style flags, unknown bits included.
    pub fn flags(&self) -> (r: ShapeFlags)
        ensures
            r.bits == (self.0 >> 24) as u8,
    {
        ShapeFlags { bits: (self.0 >> 24) as u8 }
    }

    /// A flags word gives back the flags that it was made of, and the low 24
    /// bits of the group id.
    pub proof fn lemma_round_trip(flags: u8, group_id: u32)
        ensures
            (pack_flags(flags, group_id) >> 24) as u8 == flags,
            pack_flags(flags, group_id) & 0x00FF_FFFF == group_id & 0x00FF_FFFF,
            group_id <= 0x00FF_FFFF ==> pack_flags(flags, group_id) & 0x00FF_FFFF == group_id,
    {
        assert(((((flags as u32) << 24) | (group_id & 0x00FF_FFFF)) >> 24) as u8 == flags)
            by (bit_vector);
        assert((((flags as u32) << 24) | (group_id & 0x00FF_FFFF)) & 0x00FF_FFFF == group_id
            & 0x00FF_FFFF) by (bit_vector);
        assert(group_id <= 0x00FF_FFFF ==> group_id & 0x00FF_FFFF == group_id) by (bit_vector);
    }
}

/// The numbers that describe a primitive, in the order in which the records
/// carry them.
pub open spec fn spec_params(primitive: Primitive) -> Seq<i32> {
    match primitive {
        Primitive::Circle { center, radius } => seq![center.x, center.y, radius],
        Primitive::Triangle { p1, p2, p3 } => seq![p1.x, p1.y, p2.x, p2.y, p3.x, p3.y],
        Primitive::Rect { center, half_extents, corner_radius } => seq![
            center.x,
            center.y,
            half_extents.x,
            half_extents.y,
            corner_radius.top_left,
            corner_radius.top_right,
            corner_radius.bottom_right,
            corner_radius.bottom_left,
        ],
        Primitive::Line { p1, p2 } => seq![p1.x, p1.y, p2.x, p2.y],
        Primitive::CircleSector {
            center,
            radius_inner,
            radius_outer,
            angle_start,
            angle_end,
        } => seq![center.x, center.y, radius_inner, radius_outer, angle_start, angle_end],
        Primitive::PolyQuad { points } => seq![
            points[0].x,
            points[0].y,
            points[1].x,
            points[1].y,
            points[2].x,
            points[2].y,
            points[3].x,
            points[3].y,
        ],
    }
}

/// `values` followed by as many zeros as it takes to fill eight slots.
pub open spec fn zero_filled(values: Seq<i32>) -> Seq<i32> {
    Seq::new(
        8,
        |i: int|
            if i < values.len() {
                values[i]
            } else {
                0i32
            },
    )
}

/// The eight slots of a record that hold the primitive's numbers.
#[derive(Clone, Copy, Debug)]
pub struct GpuShapeParams {
    pub params: [i32; 8],
}

impl GpuShapeParams {
    /// The slots of a primitive: its numbers, then zeros.
    pub open spec fn spec_from_primitive(primitive: Primitive) -> GpuShapeParams {
        let v = zero_filled(spec_params(primitive));
        GpuShapeParams { params: [v[0], v[1], v[2], v[3], v[4], v[5], v[6], v[7]] }
    }

    /// The given numbers in the first slots, zero in the others.
    pub fn from_slice(values: &[i32]) -> (r: Self)
        requires
            values@.len() <= 8,
        ensures
            r.params@ == zero_filled(values@),
    {
        let mut params: [i32; 8] = [0;8];
        let n: usize = values.len();
        let mut i: usize = 0;
        while i < n
            invariant
                i <= n <= 8,
                n == values@.len(),
                forall|k: int| 0 <= k < i ==> #[trigger] params@[k] == values@[k],
                forall|k: int| i <= k < 8 ==> #[trigger] params@[k] == 0,
            decreases n - i,
        {
            params[i] = values[i];
            i = i + 1;
        }
        assert(params@ =~= zero_filled(values@));
        GpuShapeParams { params }
    }

    /// The numbers of the primitive in the first slots, zero in the others.
    pub fn from_primitive(value: &Primitive) -> (r: Self)
        ensures
            r.params@ == zero_filled(spec_params(*value)),
    {
        match *value {
            Primitive::Circle { center, radius } => {
                let values: [i32; 3] = [center.x, center.y, radius];
                assert(values@ =~= spec_params(*value));
                Self::from_slice(values.as_slice())
            },
            Primitive::Triangle { p1, p2, p3 } => {
                let values: [i32; 6] = [p1.x, p1.y, p2.x, p2.y, p3.x, p3.y];
                assert(values@ =~= spec_params(*value));
                Self::from_slice(values.as_slice())
            },
            Primitive::Rect { center, half_extents, corner_radius } => {
                let values: [i32; 8] = [
                    center.x,
                    center.y,
                    half_extents.x,
                    half_extents.y,
                    corner_radius.top_left,
                    corner_radius.top_right,
                    corner_radius.bottom_right,
                    corner_radius.bottom_left,
                ];
                assert(values@ =~= spec_params(*value));
                Self::from_slice(values.as_slice())
            },
            Primitive::Line { p1, p2 } => {
                let values: [i32; 4] = [p1.x, p1.y, p2.x, p2.y];
                assert(values@ =~= spec_params(*value));
                Self::from_slice(values.as_slice())
            },
            Primitive::CircleSector {
                center,
                radius_inner,
                radius_outer,
                angle_start,
                angle_end,
            } => {
                let values: [i32; 6] = [
                    center.x,
                    center.y,
                    radius_inner,
                    radius_outer,
                    angle_start,
                    angle_end,
                ];
                assert(values@ =~= spec_params(*value));
                Self::from_slice(values.as_slice())
            },
            Primitive::PolyQuad { points } => {
                let values: [i32; 8] = [
                    points[0].x,
                    points[0].y,
                    points[1].x,
                    points[1].y,
                    points[2].x,
                    points[2].y,
                    points[3].x,
                    points[3].y,
                ];
                assert(values@ =~= spec_params(*value));
                Self::from_slice(values.as_slice())
            },
        }
    }
}

impl From<&Primitive> for GpuShapeParams {
    fn from(value: &Primitive) -> (r: Self) {
        let r = Self::from_primitive(value);
        assert(r.params =~= Self::spec_from_primitive(*value).params);
        r
    }
}

impl vstd::std_specs::convert::FromSpecImpl<&Primitive> for GpuShapeParams {
    open spec fn obeys_from_spec() -> bool {
        true
    }

    open spec fn from_spec(value: &Primitive) -> Self {
        Self::spec_from_primitive(*value)
    }
}

impl From<[i32; 1]> for GpuShapeParams {
    fn from(arr: [i32; 1]) -> (r: Self) {
        let r = Self::from_slice(arr.as_slice());
        assert(r.params =~= [arr[0], 0, 0, 0, 0, 0, 0, 0]);
        r
    }
}

impl vstd::std_specs::convert::FromSpecImpl<[i32; 1]> for GpuShapeParams {
    open spec fn obeys_from_spec() -> bool {
        true
    }

    open spec fn from_spec(arr: [i32; 1]) -> Self {
        GpuShapeParams { params: [arr[0], 0, 0, 0, 0, 0, 0, 0] }
    }
}

impl From<[i32; 2]> for GpuShapeParams {
    fn from(arr: [i32; 2]) -> (r: Self) {
        let r = Self::from_slice(arr.as_slice());
        assert(r.params =~= [arr[0], arr[1], 0, 0, 0, 0, 0, 0]);
        r
    }
}

impl vstd::std_specs::convert::FromSpecImpl<[i32; 2]> for GpuShapeParams {
    open spec fn obeys_from_spec() -> bool {
        true
    }

    open spec fn from_spec(arr: [i32; 2]) -> Self {
        GpuShapeParams { params: [arr[0], arr[1], 0, 0, 0, 0, 0, 0] }
    }
}

impl From<[i32; 3]> for GpuShapeParams {
    fn from(arr: [i32; 3]) -> (r: Self) {
        let r = Self::from_slice(arr.as_slice());
        assert(r.params =~= [arr[0], arr[1], arr[2], 0, 0, 0, 0, 0]);
        r
    }
}

impl vstd::std_specs::convert::FromSpecImpl<[i32; 3]> for GpuShapeParams {
    open spec fn obeys_from_spec() -> bool {
        true
    }

    open spec fn from_spec(arr: [i32; 3]) -> Self {
        GpuShapeParams { params: [arr[0], arr[1], arr[2], 0, 0, 0, 0, 0] }
    }
}

impl From<[i32; 4]> for GpuShapeParams {
    fn from(arr: [i32; 4]) -> (r: Self) {
        let r = Self::from_slice(arr.as_slice());
        assert(r.params =~= [arr[0], arr[1], arr[2], arr[3], 0, 0, 0, 0]);
        r
    }
}

impl vstd::std_specs::convert::FromSpecImpl<[i32; 4]> for GpuShapeParams {
    open spec fn obeys_from_spec() -> bool {
        true
    }

    open spec fn from_spec(arr: [i32; 4]) -> Self {
        GpuShapeParams { params: [arr[0], arr[1], arr[2], arr[3], 0, 0, 0, 0] }
    }
}

impl From<[i32; 5]> for GpuShapeParams {
    fn from(arr: [i32; 5]) -> (r: Self) {
        let r = Self::from_slice(arr.as_slice());
        assert(r.params =~= [arr[0], arr[1], arr[2], arr[3], arr[4], 0, 0, 0]);
        r
    }
}

impl vstd::std_specs::convert::FromSpecImpl<[i32; 5]> for GpuShapeParams {
    open spec fn obeys_from_spec() -> bool {
        true
    }

    open spec fn from_spec(arr: [i32; 5]) -> Self {
        GpuShapeParams { params: [arr[0], arr[1], arr[2], arr[3], arr[4], 0, 0, 0] }
    }
}

impl From<[i32; 6]> for GpuShapeParams {
    fn from(arr: [i32; 6]) -> (r: Self) {
        let r = Self::from_slice(arr.as_slice());
        assert(r.params =~= [arr[0], arr[1], arr[2], arr[3], arr[4], arr[5], 0, 0]);
        r
    }
}

impl vstd::std_specs::convert::FromSpecImpl<[i32; 6]> for GpuShapeParams {
    open spec fn obeys_from_spec() -> bool {
        true
    }

    open spec fn from_spec(arr: [i32; 6]) -> Self {
        GpuShapeParams { params: [arr[0], arr[1], arr[2], arr[3], arr[4], arr[5], 0, 0] }
    }
}

impl From<[i32; 7]> for GpuShapeParams {
    fn from(arr: [i32; 7]) -> (r: Self) {
        let r = Self::from_slice(arr.as_slice());
        assert(r.params =~= [arr[0], arr[1], arr[2], arr[3], arr[4], arr[5], arr[6], 0]);
        r
    }
}

impl vstd::std_specs::convert::FromSpecImpl<[i32; 7]> for GpuShapeParams {
    open spec fn obeys_from_spec() -> bool {
        true
    }

    open spec fn from_spec(arr: [i32; 7]) -> Self {
        GpuShapeParams { params: [arr[0], arr[1], arr[2], arr[3], arr[4], arr[5], arr[6], 0] }
    }
}

impl From<[i32; 8]> for GpuShapeParams {
    fn from(arr: [i32; 8]) -> (r: Self) {
        let r = Self::from_slice(arr.as_slice());
        assert(r.params =~= [arr[0], arr[1], arr[2], arr[3], arr[4], arr[5], arr[6], arr[7]]);
        r
    }
}

impl vstd::std_specs::convert::FromSpecImpl<[i32; 8]> for GpuShapeParams {
    open spec fn obeys_from_spec() -> bool {
        true
    }

    open spec fn from_spec(arr: [i32; 8]) -> Self {
        GpuShapeParams { params: [arr[0], arr[1], arr[2], arr[3], arr[4], arr[5], arr[6], arr[7]] }
    }
}

impl Default for GpuShapeParams {
    fn default() -> (r: Self)
        ensures
            r.params@ == zero_filled(Seq::empty()),
    {
        let params: [i32; 8] = [0;8];
        assert(params@ =~= zero_filled(Seq::empty()));
        GpuShapeParams { params }
    }
}

/// One record of the shape buffer: 24 words of 32 bits, in the order of the
/// fields.
#[derive(Clone, Copy, Debug)]
pub struct GpuShape {
    pub header: ShapeHeader,
    pub distance_offset: i32,
    pub line_width: i32,
    pub flags: GpuShapeFlags,
    pub bounds: BoundingBox,
    pub color: Vec4,
    pub glow: Vec4,
    pub params: GpuShapeParams,
}

/// The number of 32-bit words in a record.
pub const RECORD_WORDS: usize = 24;

/// The words of a record, in the order in which the GPU reads them: the
/// header, the distance offset, the line width, the flags word, the bounds
/// (least corner first), the colour, the glow, and the eight slots of the
/// primitive's numbers. A signed number stands as the word with its bits.
pub open spec fn spec_words(r: GpuShape) -> Seq<u32> {
    seq![
        r.header.0,
        r.distance_offset as u32,
        r.line_width as u32,
        r.flags.0,
        r.bounds.min.x as u32,
        r.bounds.min.y as u32,
        r.bounds.max.x as u32,
        r.bounds.max.y as u32,
        r.color.x as u32,
        r.color.y as u32,
        r.color.z as u32,
        r.color.w as u32,
        r.glow.x as u32,
        r.glow.y as u32,
        r.glow.z as u32,
        r.glow.w as u32,
        r.params.params[0] as u32,
        r.params.params[1] as u32,
        r.params.params[2] as u32,
        r.params.params[3] as u32,
        r.params.params[4] as u32,
        r.params.params[5] as u32,
        r.params.params[6] as u32,
        r.params.params[7] as u32,
    ]
}

/// The record that the words stand for.
pub open spec fn spec_from_words(w: Seq<u32>) -> GpuShape {
    GpuShape {
        header: ShapeHeader(w[0]),
        distance_offset: w[1] as i32,
        line_width: w[2] as i32,
        flags: GpuShapeFlags(w[3]),
        bounds: BoundingBox {
            min: Vec2 { x: w[4] as i32, y: w[5] as i32 },
            max: Vec2 { x: w[6] as i32, y: w[7] as i32 },
        },
        color: Vec4 { x: w[8] as i32, y: w[9] as i32, z: w[10] as i32, w: w[11] as i32 },
        glow: Vec4 { x: w[12] as i32, y: w[13] as i32, z: w[14] as i32, w: w[15] as i32 },
        params: GpuShapeParams {
            params: [
                w[16] as i32,
                w[17] as i32,
                w[18] as i32,
                w[19] as i32,
                w[20] as i32,
                w[21] as i32,
                w[22] as i32,
                w[23] as i32,
            ],
        },
    }
}

/// A record's words stand for that record and no other.
pub proof fn lemma_words_round_trip(r: GpuShape)
    ensures
        spec_words(r).len() == RECORD_WORDS,
        spec_from_words(spec_words(r)) == r,
{
    let w = spec_words(r);
    let back = spec_from_words(w);
    assert forall|v: i32| #[trigger] ((v as u32) as i32) == v by {
        assert(((v as u32) as i32) == v) by (bit_vector);
    }
    assert forall|i: int| 0 <= i < 8 implies back.params.params[i] == r.params.params[i] by {
        assert(w[16 + i] == r.params.params[i] as u32);
    }
    assert(back.params.params =~= r.params.params);
}

impl GpuShape {
    /// Whether the record is that of `shape`, with the texture at
    /// `texture_id` of the frame's texture array.
    pub open spec fn encodes(&self, shape: Shape, texture_id: Option<u32>) -> bool {
        &&& self.header.0 == pack_header(spec_shape_type(shape.primitive), texture_id)
        &&& self.distance_offset == shape.distance_offset
        &&& self.line_width == shape.line_width
        &&& self.flags.0 == pack_flags(shape.flags.bits, shape.group_id)
        &&& self.bounds == shape.spec_bounds()
        &&& self.color == shape.color
        &&& self.glow == shape.glow
        &&& self.params.params@ == zero_filled(spec_params(shape.primitive))
    }

    /// Whether the record stands for no shape: tag, texture and group id are
    /// all ones, and the rest is zero. No shape of a frame matches it.
    pub open spec fn is_sentinel(&self) -> bool {
        &&& self.header.0 == u32::MAX
        &&& self.distance_offset == 0
        &&& self.line_width == 0
        &&& self.flags.0 == 0x00FF_FFFF
        &&& self.bounds == BoundingBox::spec_empty()
        &&& self.color == Vec4::zero()
        &&& self.glow == Vec4::zero()
        &&& self.params.params@ == zero_filled(Seq::empty())
    }

    pub fn from_shape(shape: &Shape, texture_id: Option<u32>) -> (r: Self)
        ensures
            r.encodes(*shape, texture_id),
    {
        let shape_type: u32 = match shape.primitive {
            Primitive::Circle { .. } => 0,
            Primitive::Triangle { .. } => 1,
            Primitive::Rect { .. } => 2,
            Primitive::Line { .. } => 3,
            Primitive::CircleSector { .. } => 4,
            Primitive::PolyQuad { .. } => 5,
        };
        let bounds = shape.bounds();
        Self {
            header: ShapeHeader::new(shape_type, texture_id),
            distance_offset: shape.distance_offset,
            line_width: shape.line_width,
            flags: GpuShapeFlags::new(shape.flags, shape.group_id),
            bounds,
            color: shape.color,
            glow: shape.glow,
            params: GpuShapeParams::from_primitive(&shape.primitive),
        }
    }

    /// The record as words.
    pub fn to_words(&self) -> (words: [u32; 24])
        ensures
            words@ == spec_words(*self),
    {
        let words: [u32; 24] = [
            self.header.0,
            self.distance_offset as u32,
            self.line_width as u32,
            self.flags.0,
            self.bounds.min.x as u32,
            self.bounds.min.y as u32,
            self.bounds.max.x as u32,
            self.bounds.max.y as u32,
            self.color.x as u32,
            self.color.y as u32,
            self.color.z as u32,
            self.color.w as u32,
            self.glow.x as u32,
            self.glow.y as u32,
            self.glow.z as u32,
            self.glow.w as u32,
            self.params.params[0] as u32,
            self.params.params[1] as u32,
            self.params.params[2] as u32,
            self.params.params[3] as u32,
            self.params.params[4] as u32,
            self.params.params[5] as u32,
            self.params.params[6] as u32,
            self.params.params[7] as u32,
        ];
        assert(words@ =~= spec_words(*self));
        words
    }

    /// The record that the words stand for.
    pub fn from_words(words: &[u32; 24]) -> (r: Self)
        ensures
            r == spec_from_words(words@),
    {
        let params: [i32; 8] = [
            words[16] as i32,
            words[17] as i32,
            words[18] as i32,
            words[19] as i32,
            words[20] as i32,
            words[21] as i32,
            words[22] as i32,
            words[23] as i32,
        ];
        assert(params =~= spec_from_words(words@).params.params);
        GpuShape {
            header: ShapeHeader(words[0]),
            distance_offset: words[1] as i32,
            line_width: words[2] as i32,
            flags: GpuShapeFlags(words[3]),
            bounds: BoundingBox {
                min: Vec2 { x: words[4] as i32, y: words[5] as i32 },
                max: Vec2 { x: words[6] as i32, y: words[7] as i32 },
            },
            color: Vec4 {
                x: words[8] as i32,
                y: words[9] as i32,
                z: words[10] as i32,
                w: words[11] as i32,
            },
            glow: Vec4 {
                x: words[12] as i32,
                y: words[13] as i32,
                z: words[14] as i32,
                w: words[15] as i32,
            },
            params: GpuShapeParams { params },
        }
    }

    /// The record that pads the shape buffer.
    pub fn sentinel() -> (r: Self)
        ensures
            r.is_sentinel(),
    {
        proof {
            assert(pack_flags(0, u32::MAX) == 0x00FF_FFFF) by {
                assert((((0u8 as u32) << 24) | (0xFFFF_FFFFu32 & 0x00FF_FFFF)) == 0x00FF_FFFF)
                    by (bit_vector);
            }
        }
        Self {
            header: ShapeHeader::sentinel(),
            distance_offset: 0,
            line_width: 0,
            flags: GpuShapeFlags::new(ShapeFlags::empty(), u32::MAX),
            bounds: BoundingBox::empty(),
            color: Vec4::new(0, 0, 0, 0),
            glow: Vec4::new(0, 0, 0, 0),
            params: GpuShapeParams::default(),
        }
    }
}

impl Default for GpuShape {
    /// The record of all zeros, with the empty box for its bounds.
    fn default() -> (r: Self)
        ensures
            r.header.0 == 0,
            r.distance_offset == 0,
            r.line_width == 0,
            r.flags.0 == 0,
            r.bounds == BoundingBox::spec_empty(),
            r.color == Vec4::zero(),
            r.glow == Vec4::zero(),
            r.params.params@ == zero_filled(Seq::empty()),
    {
        Self {
            header: ShapeHeader(0),
            distance_offset: 0,
            line_width: 0,
            flags: GpuShapeFlags(0),
            bounds: BoundingBox::empty(),
            color: Vec4::new(0, 0, 0, 0),
            glow: Vec4::new(0, 0, 0, 0),
            params: GpuShapeParams::default(),
        }
    }
}

} // verus!
