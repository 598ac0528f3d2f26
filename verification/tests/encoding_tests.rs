use mondrian::backend::common::{
    GpuShape, GpuShapeFlags, GpuShapeParams, ShapeHeader, NO_TEXTURE, RECORD_WORDS,
};
use mondrian::backend::frame::{FrameEncoder, MAX_TEXTURES};
use mondrian::binner::ShapeBinner;
use mondrian::shape::{
    BoundingBox, CornerRadius, Primitive, Shape, ShapeFlags, TextureId, Vec2, Vec4,
};

fn v(x: i32, y: i32) -> Vec2 {
    Vec2::new(x, y)
}

fn circle(group_id: u32, texture: Option<u64>) -> Shape {
    Shape {
        primitive: Primitive::Circle { center: v(16, 16), radius: 4 },
        color: Vec4::new(1, 2, 3, 4),
        distance_offset: 0,
        line_width: 0,
        group_id,
        texture_id: texture.map(TextureId),
        flags: ShapeFlags::empty(),
        glow: Vec4::new(0, 0, 0, 0),
    }
}

fn assert_sentinel(record: &GpuShape) {
    assert_eq!(record.header.0, u32::MAX);
    assert_eq!(record.header.shape_type(), 0xFF);
    assert_eq!(record.header.texture_id(), None);
    assert_eq!(record.flags.0, 0x00FF_FFFF);
    assert_eq!(record.flags.group_id(), 0x00FF_FFFF);
    assert_eq!(record.flags.flags().bits(), 0);
    assert_eq!(record.distance_offset, 0);
    assert_eq!(record.line_width, 0);
    assert_eq!(record.bounds, BoundingBox::empty());
    assert_eq!(record.color, Vec4::new(0, 0, 0, 0));
    assert_eq!(record.glow, Vec4::new(0, 0, 0, 0));
    assert_eq!(record.params.params, [0; 8]);
}

#[test]
fn header_packs_tag_and_texture() {
    assert_eq!(ShapeHeader::new(2, Some(5)).0, 0x0000_0502);
    assert_eq!(ShapeHeader::new(0, Some(0)).0, 0);
    assert_eq!(ShapeHeader::new(3, None).0, 0xFFFF_FF03);
    assert_eq!(ShapeHeader::new(0x1FF, Some(1)).0, 0x0000_01FF);
    assert_eq!(ShapeHeader::new(1, Some(0x0100_0002)).0, 0x0000_0201);
    assert_eq!(ShapeHeader::sentinel().0, u32::MAX);
    assert_eq!(NO_TEXTURE, 0x00FF_FFFF);
}

#[test]
fn header_round_trips() {
    for tag in [0u32, 1, 2, 3, 4, 5, 0x7F, 0xFF] {
        for texture in [None, Some(0u32), Some(1), Some(1023), Some(0x00FF_FFFE)] {
            let header = ShapeHeader::new(tag, texture);
            assert_eq!(header.shape_type(), tag);
            assert_eq!(header.texture_id(), texture);
        }
    }
    assert_eq!(ShapeHeader::new(1, Some(0x00FF_FFFF)).texture_id(), None);
}

#[test]
fn flags_word_packs_flags_and_group() {
    assert_eq!(GpuShapeFlags::new(ShapeFlags::empty(), 7).0, 7);
    assert_eq!(GpuShapeFlags::new(ShapeFlags::texture_sdf(), 7).0, 0x0100_0007);
    assert_eq!(GpuShapeFlags::new(ShapeFlags::texture_mtsdf(), 0x00AB_CDEF).0, 0x02AB_CDEF);
    assert_eq!(GpuShapeFlags::new(ShapeFlags { bits: 0xFF }, 0).0, 0xFF00_0000);
    assert_eq!(GpuShapeFlags::new(ShapeFlags::empty(), 0x0100_0001).0, 1);
    assert_eq!(GpuShapeFlags::new(ShapeFlags::empty(), u32::MAX).0, 0x00FF_FFFF);
}

#[test]
fn flags_word_round_trips() {
    for bits in [0u8, 1, 2, 3, 0x80, 0xFF] {
        for group in [0u32, 1, 255, 256, 0x00FF_FFFF] {
            let word = GpuShapeFlags::new(ShapeFlags { bits }, group);
            assert_eq!(word.flags().bits(), bits);
            assert_eq!(word.group_id(), group);
        }
    }
    assert_eq!(GpuShapeFlags::new(ShapeFlags::empty(), 0x1234_5678).group_id(), 0x0034_5678);
}

#[test]
fn params_of_each_primitive() {
    let p = |primitive: Primitive| GpuShapeParams::from_primitive(&primitive).params;
    assert_eq!(p(Primitive::Circle { center: v(1, 2), radius: 3 }), [1, 2, 3, 0, 0, 0, 0, 0]);
    assert_eq!(
        p(Primitive::Triangle { p1: v(1, 2), p2: v(3, 4), p3: v(5, 6) }),
        [1, 2, 3, 4, 5, 6, 0, 0]
    );
    assert_eq!(
        p(Primitive::Rect {
            center: v(1, 2),
            half_extents: v(3, 4),
            corner_radius: CornerRadius::from([5, 6, 7, 8]),
        }),
        [1, 2, 3, 4, 5, 6, 7, 8]
    );
    assert_eq!(p(Primitive::Line { p1: v(1, 2), p2: v(3, 4) }), [1, 2, 3, 4, 0, 0, 0, 0]);
    assert_eq!(
        p(Primitive::CircleSector {
            center: v(1, 2),
            radius_inner: 3,
            radius_outer: 4,
            angle_start: 5,
            angle_end: 6,
        }),
        [1, 2, 3, 4, 5, 6, 0, 0]
    );
    assert_eq!(
        p(Primitive::PolyQuad { points: [v(1, 2), v(3, 4), v(5, 6), v(7, 8)] }),
        [1, 2, 3, 4, 5, 6, 7, 8]
    );
}

#[test]
fn params_from_slice_are_zero_filled() {
    assert_eq!(GpuShapeParams::from_slice(&[]).params, [0; 8]);
    assert_eq!(GpuShapeParams::from_slice(&[9]).params, [9, 0, 0, 0, 0, 0, 0, 0]);
    assert_eq!(GpuShapeParams::from_slice(&[1, 2, 3, 4, 5]).params, [1, 2, 3, 4, 5, 0, 0, 0]);
    assert_eq!(
        GpuShapeParams::from_slice(&[1, 2, 3, 4, 5, 6, 7, 8]).params,
        [1, 2, 3, 4, 5, 6, 7, 8]
    );
    assert_eq!(GpuShapeParams::default().params, [0; 8]);
}

#[test]
fn record_of_a_shape() {
    let shape = Shape {
        primitive: Primitive::Line { p1: v(0, 0), p2: v(10, 20) },
        color: Vec4::new(10, 20, 30, 40),
        distance_offset: -2,
        line_width: 6,
        group_id: 0x0100_0009,
        texture_id: Some(TextureId(123)),
        flags: ShapeFlags::texture_mtsdf(),
        glow: Vec4::new(5, 6, 7, 8),
    };
    let record = GpuShape::from_shape(&shape, Some(3));
    assert_eq!(record.header.0, 0x0000_0303);
    assert_eq!(record.header.shape_type(), 3);
    assert_eq!(record.header.texture_id(), Some(3));
    assert_eq!(record.distance_offset, -2);
    assert_eq!(record.line_width, 6);
    assert_eq!(record.flags.0, 0x0200_0009);
    assert_eq!(record.bounds, BoundingBox { min: v(-5, -5), max: v(15, 25) });
    assert_eq!(record.bounds, shape.bounds());
    assert_eq!(record.color, Vec4::new(10, 20, 30, 40));
    assert_eq!(record.glow, Vec4::new(5, 6, 7, 8));
    assert_eq!(record.params.params, [0, 0, 10, 20, 0, 0, 0, 0]);
    let bare = GpuShape::from_shape(&shape, None);
    assert_eq!(bare.header.0, 0xFFFF_FF03);
    assert_eq!(bare.header.texture_id(), None);
}

#[test]
fn tags_of_the_primitives() {
    let tag = |primitive: Primitive| {
        let mut shape = circle(0, None);
        shape.primitive = primitive;
        GpuShape::from_shape(&shape, None).header.shape_type()
    };
    assert_eq!(tag(Primitive::Circle { center: v(0, 0), radius: 1 }), 0);
    assert_eq!(tag(Primitive::Triangle { p1: v(0, 0), p2: v(1, 0), p3: v(0, 1) }), 1);
    assert_eq!(
        tag(Primitive::Rect {
            center: v(0, 0),
            half_extents: v(1, 1),
            corner_radius: CornerRadius::from(0),
        }),
        2
    );
    assert_eq!(tag(Primitive::Line { p1: v(0, 0), p2: v(1, 1) }), 3);
    assert_eq!(
        tag(Primitive::CircleSector {
            center: v(0, 0),
            radius_inner: 0,
            radius_outer: 1,
            angle_start: 0,
            angle_end: 1,
        }),
        4
    );
    assert_eq!(tag(Primitive::PolyQuad { points: [v(0, 0), v(1, 0), v(1, 1), v(0, 1)] }), 5);
}

#[test]
fn sentinel_and_default_records() {
    assert_sentinel(&GpuShape::sentinel());
    let zero = GpuShape::default();
    assert_eq!(zero.header.0, 0);
    assert_eq!(zero.flags.0, 0);
    assert_eq!(zero.bounds, BoundingBox::empty());
    assert_eq!(zero.params.params, [0; 8]);
}

#[test]
fn new_encoder_has_buffers_of_one_element() {
    let encoder = FrameEncoder::new();
    assert_eq!(encoder.shape_buffer_size, 1);
    assert_eq!(encoder.shape_ranges_buffer_size, 1);
    assert_eq!(encoder.shape_indices_buffer_size, 1);
    assert_eq!(encoder.screen_width_tiles, 0);
    assert!(encoder.textures.is_empty());
    assert!(encoder.texture_id_map.is_empty());
    assert_eq!(MAX_TEXTURES, 1024);
}

#[test]
fn shorter_frame_is_padded_with_sentinels() {
    let mut encoder = FrameEncoder::new();
    let mut binner = ShapeBinner::new(32, (64, 64));
    let five: Vec<Shape> = (0..5).map(|i| circle(i, None)).collect();
    binner.bin_shapes(&five);
    let first = encoder.prepare(&five, &binner);
    assert_eq!(first.gpu_shapes.len(), 5);
    assert!(first.recreate_shape_buffer);
    assert_eq!(encoder.shape_buffer_size, 5);
    for (i, record) in first.gpu_shapes.iter().enumerate() {
        assert_eq!(record.header.shape_type(), 0);
        assert_eq!(record.flags.group_id(), i as u32);
    }
    let two: Vec<Shape> = (0..2).map(|i| circle(i, None)).collect();
    binner.bin_shapes(&two);
    let second = encoder.prepare(&two, &binner);
    assert!(second.gpu_shapes.len() >= 5);
    assert_eq!(second.gpu_shapes.len(), 5);
    assert!(!second.recreate_shape_buffer);
    assert_eq!(encoder.shape_buffer_size, 5);
    assert_eq!(second.gpu_shapes[0].flags.group_id(), 0);
    assert_eq!(second.gpu_shapes[1].flags.group_id(), 1);
    assert_eq!(second.gpu_shapes[1].header.0, 0xFFFF_FF00);
    for record in &second.gpu_shapes[2..] {
        assert_sentinel(record);
    }
}

#[test]
fn buffer_sizes_only_grow() {
    let mut encoder = FrameEncoder::new();
    let mut binner = ShapeBinner::new(32, (64, 64));
    let shapes: Vec<Shape> = (0..3).map(|i| circle(i, None)).collect();
    binner.bin_shapes(&shapes);
    assert_eq!(binner.tile_ranges.len(), 5);
    assert_eq!(binner.shape_indices.len(), 3);
    let frame = encoder.prepare(&shapes, &binner);
    assert!(frame.recreate_shape_buffer);
    assert!(frame.recreate_ranges_buffer);
    assert!(frame.recreate_indices_buffer);
    assert_eq!(encoder.shape_buffer_size, 3);
    assert_eq!(encoder.shape_ranges_buffer_size, 5);
    assert_eq!(encoder.shape_indices_buffer_size, 3);
    assert_eq!(encoder.screen_width_tiles, 2);
    binner.update_resolution((32, 32));
    binner.bin_shapes(&shapes[..1]);
    let frame = encoder.prepare(&shapes[..1], &binner);
    assert!(!frame.recreate_shape_buffer);
    assert!(!frame.recreate_ranges_buffer);
    assert!(!frame.recreate_indices_buffer);
    assert_eq!(frame.gpu_shapes.len(), 3);
    assert_eq!(encoder.shape_buffer_size, 3);
    assert_eq!(encoder.shape_ranges_buffer_size, 5);
    assert_eq!(encoder.shape_indices_buffer_size, 3);
    assert_eq!(encoder.screen_width_tiles, 1);
    let empty = encoder.prepare(&[], &binner);
    assert_eq!(empty.gpu_shapes.len(), 3);
    for record in &empty.gpu_shapes {
        assert_sentinel(record);
    }
}

#[test]
fn one_shape_fills_the_first_buffer_without_growth() {
    let mut encoder = FrameEncoder::new();
    let binner = ShapeBinner::new(32, (0, 0));
    let frame = encoder.prepare(&[circle(0, None)], &binner);
    assert_eq!(frame.gpu_shapes.len(), 1);
    assert!(!frame.recreate_shape_buffer);
    assert!(!frame.recreate_ranges_buffer);
    assert!(!frame.recreate_indices_buffer);
    let none = encoder.prepare(&[], &binner);
    assert_eq!(none.gpu_shapes.len(), 1);
    assert_sentinel(&none.gpu_shapes[0]);
}

#[test]
fn textures_get_places_in_the_order_of_first_use() {
    let mut encoder = FrameEncoder::new();
    for id in [10u64, 20, 30] {
        encoder.register_texture(TextureId(id));
    }
    let shapes = vec![
        circle(0, Some(20)),
        circle(1, None),
        circle(2, Some(10)),
        circle(3, Some(20)),
        circle(4, Some(99)),
        circle(5, Some(30)),
    ];
    let binner = ShapeBinner::new(32, (64, 64));
    let frame = encoder.prepare(&shapes, &binner);
    assert_eq!(frame.textures, vec![TextureId(20), TextureId(10), TextureId(30)]);
    let places: Vec<Option<u32>> = frame.gpu_shapes.iter().map(|r| r.header.texture_id()).collect();
    assert_eq!(places, vec![Some(0), None, Some(1), Some(0), None, Some(2)]);
    assert_eq!(encoder.texture_id_map.len(), 3);
    assert_eq!(encoder.texture_id_map.get(&10), Some(&1));
    assert_eq!(encoder.texture_slot(&shapes[5]), Some(2));
    assert_eq!(encoder.texture_slot(&shapes[4]), None);
    assert_eq!(encoder.texture_slot(&shapes[1]), None);
}

#[test]
fn places_are_given_anew_each_frame() {
    let mut encoder = FrameEncoder::new();
    encoder.register_texture(TextureId(1));
    encoder.register_texture(TextureId(2));
    let binner = ShapeBinner::new(32, (64, 64));
    let first = encoder.prepare(&[circle(0, Some(1)), circle(1, Some(2))], &binner);
    assert_eq!(first.textures, vec![TextureId(1), TextureId(2)]);
    let second = encoder.prepare(&[circle(0, Some(2))], &binner);
    assert_eq!(second.textures, vec![TextureId(2)]);
    assert_eq!(second.gpu_shapes[0].header.texture_id(), Some(0));
    assert_eq!(encoder.texture_id_map.len(), 1);
    encoder.unregister_texture(TextureId(2));
    assert!(!encoder.textures.contains(&2));
    assert!(encoder.textures.contains(&1));
    let third = encoder.prepare(&[circle(0, Some(2)), circle(1, Some(1))], &binner);
    assert_eq!(third.textures, vec![TextureId(1)]);
    assert_eq!(third.gpu_shapes[0].header.texture_id(), None);
    assert_eq!(third.gpu_shapes[1].header.texture_id(), Some(0));
}

#[test]
fn textures_beyond_the_array_are_dropped() {
    let mut encoder = FrameEncoder::new();
    let count = MAX_TEXTURES as u64 + 5;
    for id in 0..count {
        encoder.register_texture(TextureId(id));
    }
    let shapes: Vec<Shape> = (0..count).map(|id| circle(id as u32, Some(id))).collect();
    let binner = ShapeBinner::new(32, (64, 64));
    let frame = encoder.prepare(&shapes, &binner);
    assert_eq!(frame.textures.len(), MAX_TEXTURES as usize);
    assert_eq!(frame.gpu_shapes.len(), count as usize);
    assert_eq!(frame.gpu_shapes[1023].header.texture_id(), Some(1023));
    assert_eq!(frame.gpu_shapes[1024].header.texture_id(), None);
    assert_eq!(frame.gpu_shapes[1028].header.texture_id(), None);
    assert_eq!(frame.gpu_shapes[1028].header.shape_type(), 0);
    assert_eq!(frame.gpu_shapes[1028].flags.group_id(), 1028);
}

#[test]
fn prepare_textures_and_shape_buffers_apart() {
    let mut encoder = FrameEncoder::new();
    encoder.register_texture(TextureId(7));
    let shapes = vec![circle(0, Some(7)), circle(1, Some(7))];
    let slots = encoder.prepare_textures(&shapes);
    assert_eq!(slots, vec![TextureId(7)]);
    let binner = ShapeBinner::new(32, (64, 64));
    let (records, shapes_grew, ranges_grew, indices_grew) =
        encoder.prepare_shape_buffers(&shapes, &binner);
    assert_eq!(records.len(), 2);
    assert_eq!(records[0].header.texture_id(), Some(0));
    assert_eq!(records[1].header.texture_id(), Some(0));
    assert!(shapes_grew);
    assert!(!ranges_grew);
    assert!(!indices_grew);
}

#[test]
fn words_of_a_record() {
    let shape = Shape {
        primitive: Primitive::Rect {
            center: v(100, -200),
            half_extents: v(30, 40),
            corner_radius: CornerRadius::from([1, 2, 3, 4]),
        },
        color: Vec4::new(10, 20, 30, 40),
        distance_offset: -2,
        line_width: 6,
        group_id: 9,
        texture_id: None,
        flags: ShapeFlags::texture_sdf(),
        glow: Vec4::new(5, 6, 7, -8),
    };
    let record = GpuShape::from_shape(&shape, Some(1));
    let words = record.to_words();
    assert_eq!(words.len(), RECORD_WORDS);
    assert_eq!(RECORD_WORDS, 24);
    assert_eq!(
        words,
        [
            0x0000_0102,
            (-2i32) as u32,
            6,
            0x0100_0009,
            65,
            (-245i32) as u32,
            135,
            (-155i32) as u32,
            10,
            20,
            30,
            40,
            5,
            6,
            7,
            (-8i32) as u32,
            100,
            (-200i32) as u32,
            30,
            40,
            1,
            2,
            3,
            4,
        ]
    );
    let back = GpuShape::from_words(&words);
    assert_eq!(back.header, record.header);
    assert_eq!(back.distance_offset, record.distance_offset);
    assert_eq!(back.line_width, record.line_width);
    assert_eq!(back.flags, record.flags);
    assert_eq!(back.bounds, record.bounds);
    assert_eq!(back.color, record.color);
    assert_eq!(back.glow, record.glow);
    assert_eq!(back.params.params, record.params.params);
}

#[test]
fn words_of_the_sentinel() {
    let words = GpuShape::sentinel().to_words();
    assert_eq!(words[0], u32::MAX);
    assert_eq!(words[3], 0x00FF_FFFF);
    assert_eq!(words[4], i32::MAX as u32);
    assert_eq!(words[6], i32::MIN as u32);
    assert!(words[8..].iter().all(|w| *w == 0));
    assert_sentinel(&GpuShape::from_words(&words));
}

#[test]
fn params_from_arrays() {
    assert_eq!(GpuShapeParams::from([7]).params, [7, 0, 0, 0, 0, 0, 0, 0]);
    assert_eq!(GpuShapeParams::from([7, 8]).params, [7, 8, 0, 0, 0, 0, 0, 0]);
    assert_eq!(GpuShapeParams::from([7, 8, 9]).params, [7, 8, 9, 0, 0, 0, 0, 0]);
    assert_eq!(GpuShapeParams::from([1, 2, 3, 4]).params, [1, 2, 3, 4, 0, 0, 0, 0]);
    assert_eq!(GpuShapeParams::from([1, 2, 3, 4, 5]).params, [1, 2, 3, 4, 5, 0, 0, 0]);
    assert_eq!(GpuShapeParams::from([1, 2, 3, 4, 5, 6]).params, [1, 2, 3, 4, 5, 6, 0, 0]);
    assert_eq!(GpuShapeParams::from([1, 2, 3, 4, 5, 6, 7]).params, [1, 2, 3, 4, 5, 6, 7, 0]);
    assert_eq!(GpuShapeParams::from([1, 2, 3, 4, 5, 6, 7, 8]).params, [1, 2, 3, 4, 5, 6, 7, 8]);
    let circle = Primitive::Circle { center: v(4, 5), radius: 6 };
    assert_eq!(GpuShapeParams::from(&circle).params, [4, 5, 6, 0, 0, 0, 0, 0]);
}
