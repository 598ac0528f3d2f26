use crate::backend::common::GpuShape;
use crate::binner::ShapeBinner;
use crate::shape::{Shape, TextureId};
use std::collections::{HashMap, HashSet};
use vstd::prelude::*;

verus! {

broadcast use vstd::std_specs::hash::group_hash_axioms;

/// The number of places in the texture array of a frame.
pub const MAX_TEXTURES: u32 = 1024;

/// Whether the shape's texture takes the next place of the texture array,
/// given the textures that hold the places so far: it names a registered
/// texture that has no place yet, and a place is left.
pub open spec fn takes_slot(slots: Seq<TextureId>, registered: Set<u64>, shape: Shape) -> bool {
    &&& shape.texture_id is Some
    &&& slots.len() < MAX_TEXTURES
    &&& !slots.contains(shape.texture_id->0)
    &&& registered.contains((shape.texture_id->0).0)
}

/// The textures of the first `n` shapes that get a place in the texture
/// array, in the order of their places: each registered texture once, at its
/// first use, until the array is full.
pub open spec fn texture_slots(shapes: Seq<Shape>, registered: Set<u64>, n: int) -> Seq<TextureId>
    decreases n,
{
    if n <= 0 {
        Seq::empty()
    } else {
        let slots = texture_slots(shapes, registered, n - 1);
        if takes_slot(slots, registered, shapes[n - 1]) {
            slots.push(shapes[n - 1].texture_id->0)
        } else {
            slots
        }
    }
}

/// The map sends each texture of `slots` to its place, and nothing else to
/// anything.
pub open spec fn maps_slots(map: Map<u64, u32>, slots: Seq<TextureId>) -> bool {
    &&& forall|k: int|
        0 <= k < slots.len() ==> map.contains_key((#[trigger] slots[k]).0) && map[slots[k].0] == k
    &&& forall|id: u64| #[trigger] map.contains_key(id) ==> slots.contains(TextureId(id))
}

/// The place of the shape's texture in the texture array, if it has one.
pub open spec fn slot_of(map: Map<u64, u32>, shape: Shape) -> Option<u32> {
    match shape.texture_id {
        Some(id) => if map.contains_key(id.0) {
            Some(map[id.0])
        } else {
            None
        },
        None => None,
    }
}

/// The larger of two sizes.
pub open spec fn grown(size: int, len: int) -> int {
    if size < len {
        len
    } else {
        size
    }
}

/// The records of a frame are those of its shapes, each with the place of its
/// texture, followed by sentinels up to the size of the shape buffer.
pub open spec fn encodes_frame(
    records: Seq<GpuShape>,
    shapes: Seq<Shape>,
    map: Map<u64, u32>,
    size: int,
) -> bool {
    &&& records.len() == grown(size, shapes.len() as int)
    &&& forall|i: int|
        0 <= i < shapes.len() ==> (#[trigger] records[i]).encodes(shapes[i], slot_of(map, shapes[i]))
    &&& forall|i: int| shapes.len() <= i < records.len() ==> (#[trigger] records[i]).is_sentinel()
}

/// No texture has two places.
pub proof fn lemma_texture_slots_distinct(shapes: Seq<Shape>, registered: Set<u64>, n: int)
    ensures
        texture_slots(shapes, registered, n).len() <= MAX_TEXTURES,
        texture_slots(shapes, registered, n).no_duplicates(),
        forall|k: int|
            0 <= k < texture_slots(shapes, registered, n).len() ==> registered.contains(
                (#[trigger] texture_slots(shapes, registered, n)[k]).0,
            ),
    decreases n,
{
    if n > 0 {
        lemma_texture_slots_distinct(shapes, registered, n - 1);
        let shorter = texture_slots(shapes, registered, n - 1);
        let slots = texture_slots(shapes, registered, n);
        if takes_slot(shorter, registered, shapes[n - 1]) {
            assert forall|i: int, j: int| 0 <= i < slots.len() && 0 <= j < slots.len() && i
                != j implies slots[i] != slots[j] by {
                if i < shorter.len() {
                    assert(shorter[i] == slots[i]);
                }
                if j < shorter.len() {
                    assert(shorter[j] == slots[j]);
                }
            }
            assert forall|k: int| 0 <= k < slots.len() implies registered.contains(
                (#[trigger] slots[k]).0,
            ) by {
                if k < shorter.len() {
                    assert(shorter[k] == slots[k]);
                }
            }
        }
    }
}

/// What a frame hands to the renderer besides the binner's two buffers.
pub struct PreparedFrame {
    /// The shape buffer: one record for each shape, then sentinels.
    pub gpu_shapes: Vec<GpuShape>,
    /// The textures of the frame's texture array, in the order of their
    /// places. The places after them take a placeholder.
    pub textures: Vec<TextureId>,
    /// Whether the shape buffer is too small for the records and has to be
    /// made anew.
    pub recreate_shape_buffer: bool,
    /// The same for the buffer of `tile_ranges`.
    pub recreate_ranges_buffer: bool,
    /// The same for the buffer of `shape_indices`.
    pub recreate_indices_buffer: bool,
}

/// What the renderer keeps from frame to frame: the sizes of its three
/// buffers, in elements, which only grow; the textures that are registered;
/// and the place of each texture in the texture array of the last frame.
pub struct FrameEncoder {
    pub shape_buffer_size: usize,
    pub shape_ranges_buffer_size: usize,
    pub shape_indices_buffer_size: usize,
    pub screen_width_tiles: u32,
    pub textures: HashSet<u64>,
    pub texture_id_map: HashMap<u64, u32>,
}

fn fit(size: &mut usize, len: usize) -> (grew: bool)
    ensures
        grew == (*old(size) < len),
        *final(size) as int == grown(*old(size) as int, len as int),
{
    if *size < len {
        *size = len;
        true
    } else {
        false
    }
}

impl FrameEncoder {
    /// An encoder with buffers of one element each and no texture.
    pub fn new() -> (r: Self)
        ensures
            r.shape_buffer_size == 1,
            r.shape_ranges_buffer_size == 1,
            r.shape_indices_buffer_size == 1,
            r.screen_width_tiles == 0,
            r.textures@ == Set::<u64>::empty(),
            r.texture_id_map@ == Map::<u64, u32>::empty(),
    {
        FrameEncoder {
            shape_buffer_size: 1,
            shape_ranges_buffer_size: 1,
            shape_indices_buffer_size: 1,
            screen_width_tiles: 0,
            textures: HashSet::new(),
            texture_id_map: HashMap::new(),
        }
    }

    /// Makes a texture known, so that shapes that name it get a place for it.
    pub fn register_texture(&mut self, texture_id: TextureId)
        ensures
            final(self).textures@ == old(self).textures@.insert(texture_id.0),
            final(self).texture_id_map == old(self).texture_id_map,
            final(self).shape_buffer_size == old(self).shape_buffer_size,
            final(self).shape_ranges_buffer_size == old(self).shape_ranges_buffer_size,
            final(self).shape_indices_buffer_size == old(self).shape_indices_buffer_size,
            final(self).screen_width_tiles == old(self).screen_width_tiles,
    {
        self.textures.insert(texture_id.0);
    }

    /// Forgets a texture: from the next frame on, shapes that name it are
    /// drawn without one.
    pub fn unregister_texture(&mut self, texture_id: TextureId)
        ensures
            final(self).textures@ == old(self).textures@.remove(texture_id.0),
            final(self).texture_id_map == old(self).texture_id_map,
            final(self).shape_buffer_size == old(self).shape_buffer_size,
            final(self).shape_ranges_buffer_size == old(self).shape_ranges_buffer_size,
            final(self).shape_indices_buffer_size == old(self).shape_indices_buffer_size,
            final(self).screen_width_tiles == old(self).screen_width_tiles,
    {
        self.textures.remove(&texture_id.0);
    }

    /// Gives the textures of the frame their places in the texture array and
    /// returns them in the order of the places.
    pub fn prepare_textures(&mut self, shapes: &[Shape]) -> (slots: Vec<TextureId>)
        ensures
            slots@ == texture_slots(shapes@, old(self).textures@, shapes@.len() as int),
            maps_slots(final(self).texture_id_map@, slots@),
            final(self).textures == old(self).textures,
            final(self).shape_buffer_size == old(self).shape_buffer_size,
            final(self).shape_ranges_buffer_size == old(self).shape_ranges_buffer_size,
            final(self).shape_indices_buffer_size == old(self).shape_indices_buffer_size,
            final(self).screen_width_tiles == old(self).screen_width_tiles,
    {
        self.texture_id_map.clear();
        let mut slots: Vec<TextureId> = Vec::new();
        let n: usize = shapes.len();
        let mut i: usize = 0;
        while i < n
            invariant
                i <= n,
                n == shapes@.len(),
                slots@ == texture_slots(shapes@, self.textures@, i as int),
                slots@.len() <= MAX_TEXTURES,
                maps_slots(self.texture_id_map@, slots@),
                self.textures == old(self).textures,
                self.shape_buffer_size == old(self).shape_buffer_size,
                self.shape_ranges_buffer_size == old(self).shape_ranges_buffer_size,
                self.shape_indices_buffer_size == old(self).shape_indices_buffer_size,
                self.screen_width_tiles == old(self).screen_width_tiles,
            decreases n - i,
        {
            proof {
                lemma_texture_slots_distinct(shapes@, self.textures@, i as int + 1);
            }
            match shapes[i].texture_id {
                Some(id) => {
                    let key: u64 = id.0;
                    proof {
                        if slots@.contains(id) {
                            let k = choose|k: int| 0 <= k < slots@.len() && slots@[k] == id;
                            assert(self.texture_id_map@.contains_key(slots@[k].0));
                        }
                    }
                    if slots.len() < MAX_TEXTURES as usize && !self.texture_id_map.contains_key(
                        &key,
                    ) && self.textures.contains(&key) {
                        let place: u32 = slots.len() as u32;
                        let ghost before = slots@;
                        self.texture_id_map.insert(key, place);
                        slots.push(id);
                        proof {
                            assert forall|k: int| 0 <= k < slots@.len() implies
                                self.texture_id_map@.contains_key((#[trigger] slots@[k]).0)
                                && self.texture_id_map@[slots@[k].0] == k by {
                                if k < before.len() {
                                    assert(before[k] == slots@[k]);
                                }
                            }
                            assert forall|other: u64| #[trigger]
                                self.texture_id_map@.contains_key(other) implies slots@.contains(
                                TextureId(other),
                            ) by {
                                if other == key {
                                    assert(slots@[before.len() as int] == id);
                                } else {
                                    let k = choose|k: int|
                                        0 <= k < before.len() && before[k] == TextureId(other);
                                    assert(slots@[k] == TextureId(other));
                                }
                            }
                        }
                    }
                },
                None => {},
            }
            i = i + 1;
        }
        slots
    }

    /// The place of the shape's texture in the texture array of the frame
    /// that `prepare_textures` last saw, if it has one.
    pub fn texture_slot(&self, shape: &Shape) -> (r: Option<u32>)
        ensures
            r == slot_of(self.texture_id_map@, *shape),
    {
        match shape.texture_id {
            Some(id) => {
                let key: u64 = id.0;
                match self.texture_id_map.get(&key) {
                    Some(place) => Some(*place),
                    None => None,
                }
            },
            None => None,
        }
    }

    /// Encodes the shapes, pads the records with sentinels up to the size of
    /// the shape buffer, and grows the sizes of the three buffers to what
    /// the frame needs. A buffer whose size grew has to be made anew.
    pub fn prepare_shape_buffers(&mut self, shapes: &[Shape], binner: &ShapeBinner) -> (r: (
        Vec<GpuShape>,
        bool,
        bool,
        bool,
    ))
        ensures
            encodes_frame(
                r.0@,
                shapes@,
                old(self).texture_id_map@,
                old(self).shape_buffer_size as int,
            ),
            final(self).shape_buffer_size as int == grown(
                old(self).shape_buffer_size as int,
                shapes@.len() as int,
            ),
            final(self).shape_ranges_buffer_size as int == grown(
                old(self).shape_ranges_buffer_size as int,
                binner.tile_ranges@.len() as int,
            ),
            final(self).shape_indices_buffer_size as int == grown(
                old(self).shape_indices_buffer_size as int,
                binner.shape_indices@.len() as int,
            ),
            r.1 == (old(self).shape_buffer_size < shapes@.len()),
            r.2 == (old(self).shape_ranges_buffer_size < binner.tile_ranges@.len()),
            r.3 == (old(self).shape_indices_buffer_size < binner.shape_indices@.len()),
            final(self).textures == old(self).textures,
            final(self).texture_id_map == old(self).texture_id_map,
            final(self).screen_width_tiles == old(self).screen_width_tiles,
    {
        let n: usize = shapes.len();
        let mut gpu_shapes: Vec<GpuShape> = Vec::new();
        let mut i: usize = 0;
        while i < n
            invariant
                i <= n,
                n == shapes@.len(),
                gpu_shapes@.len() == i,
                *self == *old(self),
                forall|k: int|
                    0 <= k < i ==> (#[trigger] gpu_shapes@[k]).encodes(
                        shapes@[k],
                        slot_of(self.texture_id_map@, shapes@[k]),
                    ),
            decreases n - i,
        {
            let texture_id: Option<u32> = self.texture_slot(&shapes[i]);
            gpu_shapes.push(GpuShape::from_shape(&shapes[i], texture_id));
            i = i + 1;
        }
        while gpu_shapes.len() < self.shape_buffer_size
            invariant
                n == shapes@.len(),
                n <= gpu_shapes@.len(),
                gpu_shapes@.len() as int <= grown(self.shape_buffer_size as int, n as int),
                *self == *old(self),
                forall|k: int|
                    0 <= k < n ==> (#[trigger] gpu_shapes@[k]).encodes(
                        shapes@[k],
                        slot_of(self.texture_id_map@, shapes@[k]),
                    ),
                forall|k: int| n <= k < gpu_shapes@.len() ==> (#[trigger] gpu_shapes@[k]).is_sentinel(),
            decreases self.shape_buffer_size - gpu_shapes@.len(),
        {
            gpu_shapes.push(GpuShape::sentinel());
        }
        let recreate_shapes: bool = fit(&mut self.shape_buffer_size, n);
        let recreate_ranges: bool = fit(
            &mut self.shape_ranges_buffer_size,
            binner.tile_ranges.len(),
        );
        let recreate_indices: bool = fit(
            &mut self.shape_indices_buffer_size,
            binner.shape_indices.len(),
        );
        (gpu_shapes, recreate_shapes, recreate_ranges, recreate_indices)
    }

    /// Prepares a frame: the textures get their places, the shapes become
    /// records, and the buffer sizes grow to what the frame needs.
    pub fn prepare(&mut self, shapes: &[Shape], binner: &ShapeBinner) -> (frame: PreparedFrame)
        requires
            binner.tile_size > 0,
        ensures
            final(self).screen_width_tiles as int == binner.tiles_x(),
            frame.textures@ == texture_slots(shapes@, old(self).textures@, shapes@.len() as int),
            maps_slots(final(self).texture_id_map@, frame.textures@),
            encodes_frame(
                frame.gpu_shapes@,
                shapes@,
                final(self).texture_id_map@,
                old(self).shape_buffer_size as int,
            ),
            final(self).shape_buffer_size as int == grown(
                old(self).shape_buffer_size as int,
                shapes@.len() as int,
            ),
            final(self).shape_ranges_buffer_size as int == grown(
                old(self).shape_ranges_buffer_size as int,
                binner.tile_ranges@.len() as int,
            ),
            final(self).shape_indices_buffer_size as int == grown(
                old(self).shape_indices_buffer_size as int,
                binner.shape_indices@.len() as int,
            ),
            frame.recreate_shape_buffer == (old(self).shape_buffer_size < shapes@.len()),
            frame.recreate_ranges_buffer == (old(self).shape_ranges_buffer_size
                < binner.tile_ranges@.len()),
            frame.recreate_indices_buffer == (old(self).shape_indices_buffer_size
                < binner.shape_indices@.len()),
            final(self).textures == old(self).textures,
    {
        self.screen_width_tiles = binner.screen_width_in_tiles();
        let textures = self.prepare_textures(shapes);
        let buffers = self.prepare_shape_buffers(shapes, binner);
        PreparedFrame {
            gpu_shapes: buffers.0,
            textures,
            recreate_shape_buffer: buffers.1,
            recreate_ranges_buffer: buffers.2,
            recreate_indices_buffer: buffers.3,
        }
    }
}

} // verus!
