use crate::binner::{ShapeBinner, binned_total, grid_fits, spec_grid_fits, tiles_across};
use crate::shape::{CornerRadius, Primitive, Shape, ShapeFlags, Vec2, Vec4, clamp_i32, half_width};
use vstd::prelude::*;

verus! {

/// The edge of the tiles that a painter bins into, unless it is made with
/// another.
pub const TILE_SIZE: u32 = 32;

/// What a painter holds, as plain values.
pub struct PainterState {
    /// The shapes of the frame, in the order in which they were added.
    pub shapes: Seq<Shape>,
    /// The group id that the next shape gets.
    pub next_group_id: u32,
    /// Whether a group is open: the shapes added to it share one id.
    pub in_group: bool,
    /// The index at which the last group began.
    pub first_shape_in_group: int,
    /// Whether a frame is open.
    pub started: bool,
    pub binner: ShapeBinner,
}

impl PainterState {
    /// The state after `stored` was added: the counter moves on unless a
    /// group is open.
    pub open spec fn after_add(self, stored: Shape) -> PainterState {
        PainterState {
            shapes: self.shapes.push(stored),
            next_group_id: if self.in_group {
                self.next_group_id
            } else {
                (self.next_group_id + 1) as u32
            },
            first_shape_in_group: if self.in_group {
                self.first_shape_in_group
            } else {
                self.shapes.len() as int
            },
            ..self
        }
    }

    /// The state after a group was opened: a group that was open is closed
    /// first, so that the new one gets an id of its own.
    pub open spec fn after_begin_group(self) -> PainterState {
        PainterState {
            next_group_id: if self.in_group {
                (self.next_group_id + 1) as u32
            } else {
                self.next_group_id
            },
            in_group: true,
            first_shape_in_group: self.shapes.len() as int,
            ..self
        }
    }

    /// The state after the group was closed: the counter moves on, so that
    /// the next shape does not join the group.
    pub open spec fn after_end_group(self) -> PainterState {
        PainterState { next_group_id: (self.next_group_id + 1) as u32, in_group: false, ..self }
    }

    /// The group ids never fall along the list, and none is beyond the
    /// counter; outside a group all are below it.
    pub open spec fn ordered(self) -> bool {
        &&& forall|i: int, j: int|
            0 <= i <= j < self.shapes.len() ==> self.shapes[i].group_id <= self.shapes[j].group_id
        &&& forall|i: int|
            0 <= i < self.shapes.len() ==> (#[trigger] self.shapes[i]).group_id
                <= self.next_group_id
        &&& !self.in_group ==> forall|i: int|
            0 <= i < self.shapes.len() ==> (#[trigger] self.shapes[i]).group_id
                < self.next_group_id
    }

    /// Adding a shape under the id that the painter gave it keeps the ids in
    /// order.
    pub proof fn lemma_add_keeps_order(self, stored: Shape)
        requires
            self.ordered(),
            stored.group_id == self.next_group_id,
            self.in_group || self.next_group_id < u32::MAX,
        ensures
            self.after_add(stored).ordered(),
    {
        let after = self.after_add(stored);
        assert forall|i: int, j: int| 0 <= i <= j < after.shapes.len() implies
            after.shapes[i].group_id <= after.shapes[j].group_id by {
            if j < self.shapes.len() {
                assert(after.shapes[i] == self.shapes[i]);
                assert(after.shapes[j] == self.shapes[j]);
            } else if i < self.shapes.len() {
                assert(after.shapes[i] == self.shapes[i]);
            }
        }
        assert forall|i: int| 0 <= i < after.shapes.len() implies (#[trigger] after.shapes[i]).group_id
            <= after.next_group_id by {
            if i < self.shapes.len() {
                assert(after.shapes[i] == self.shapes[i]);
            }
        }
        if !after.in_group {
            assert forall|i: int| 0 <= i < after.shapes.len() implies (
            #[trigger] after.shapes[i]).group_id < after.next_group_id by {
                if i < self.shapes.len() {
                    assert(after.shapes[i] == self.shapes[i]);
                }
            }
        }
    }

    /// Opening a group keeps the ids in order, and the shapes that are there
    /// stay out of the new group.
    pub proof fn lemma_begin_group_keeps_order(self)
        requires
            self.ordered(),
            !self.in_group || self.next_group_id < u32::MAX,
        ensures
            self.after_begin_group().ordered(),
            forall|i: int|
                0 <= i < self.shapes.len() ==> (#[trigger] self.shapes[i]).group_id
                    < self.after_begin_group().next_group_id,
    {
    }

    /// Closing a group keeps the ids in order, and the shapes that are there
    /// stay out of whatever comes next.
    pub proof fn lemma_end_group_keeps_order(self)
        requires
            self.ordered(),
            self.next_group_id < u32::MAX,
        ensures
            self.after_end_group().ordered(),
    {
    }

    /// Where the ids are in order, the shapes of one group stand side by
    /// side: between two shapes with one id every shape has that id.
    pub proof fn lemma_groups_are_contiguous(self, i: int, k: int, j: int)
        requires
            self.ordered(),
            0 <= i <= k <= j < self.shapes.len(),
            self.shapes[i].group_id == self.shapes[j].group_id,
        ensures
            self.shapes[k].group_id == self.shapes[i].group_id,
    {
    }

    /// The id under which `add_shape` stores a shape in this state.
    pub open spec fn assigned(self, shape: Shape) -> Shape {
        Shape { group_id: self.next_group_id, ..shape }
    }

    /// Shapes added to one group share an id, and a shape added after the
    /// group was closed has another: a greater one.
    pub proof fn lemma_grouping(self, a: Shape, b: Shape, c: Shape, d: Shape)
        requires
            self.next_group_id < u32::MAX - 2,
        ensures
            ({
                let s1 = self.after_begin_group();
                let s2 = s1.after_add(s1.assigned(a));
                let s3 = s2.after_add(s2.assigned(b));
                let s4 = s3.after_add(s3.assigned(c));
                let s5 = s4.after_end_group();
                let s6 = s5.after_add(s5.assigned(d));
                let n = self.shapes.len() as int;
                &&& s6.shapes.len() == n + 4
                &&& s6.shapes[n].group_id == s6.shapes[n + 1].group_id
                &&& s6.shapes[n + 1].group_id == s6.shapes[n + 2].group_id
                &&& s6.shapes[n + 2].group_id < s6.shapes[n + 3].group_id
                &&& s6.shapes[n + 3].group_id < s6.next_group_id
            }),
    {
    }
}

/// The middle of `a` and `b`, rounded down.
pub open spec fn midpoint(a: int, b: int) -> int {
    (a + b) / 2
}

/// The centre of the rectangle with the corners `min` and `max`.
pub open spec fn rect_center(min: Vec2, max: Vec2) -> Vec2 {
    Vec2 {
        x: midpoint(min.x as int, max.x as int) as i32,
        y: midpoint(min.y as int, max.y as int) as i32,
    }
}

/// Half the size of the rectangle with the corners `min` and `max`, rounded
/// up and kept in range. With `rect_center` it spans a box that covers both
/// corners.
pub open spec fn rect_half_extents(min: Vec2, max: Vec2) -> Vec2 {
    Vec2 {
        x: clamp_i32(half_width(max.x - min.x)) as i32,
        y: clamp_i32(half_width(max.y - min.y)) as i32,
    }
}

/// The rectangle that `rect_center` and `rect_half_extents` span covers the
/// corners it was made of, unless the half extent was cut to fit.
pub proof fn lemma_rect_covers_corners(a: int, b: int)
    requires
        i32::MIN <= a <= b <= i32::MAX,
        half_width(b - a) <= i32::MAX,
    ensures
        midpoint(a, b) - half_width(b - a) <= a,
        b <= midpoint(a, b) + half_width(b - a),
        a - 1 <= midpoint(a, b) - half_width(b - a),
        midpoint(a, b) + half_width(b - a) <= b + 1,
{
}

fn mid(a: i32, b: i32) -> (r: i32)
    ensures
        r as int == midpoint(a as int, b as int),
{
    let sum: i64 = a as i64 + b as i64;
    if sum >= 0 {
        (sum / 2) as i32
    } else {
        let m: i64 = -sum;
        (-((m + 1) / 2)) as i32
    }
}

fn half_span(a: i32, b: i32) -> (r: i32)
    ensures
        r as int == clamp_i32(half_width(b - a)),
{
    let span: i64 = b as i64 - a as i64;
    let half: i64 = if span >= 0 {
        (span + 1) / 2
    } else {
        let m: i64 = -span;
        -(m / 2)
    };
    if half > 2147483647i64 {
        i32::MAX
    } else {
        half as i32
    }
}

/// The shape that the painter's helpers start from: filled, without offset,
/// texture, flags or glow.
pub open spec fn plain_shape(primitive: Primitive, color: Vec4) -> Shape {
    Shape {
        primitive,
        color,
        distance_offset: 0,
        line_width: 0,
        group_id: 0,
        texture_id: None,
        flags: ShapeFlags { bits: 0 },
        glow: Vec4::zero(),
    }
}

/// Collects the shapes of a frame and bins them when the frame ends.
pub struct Painter {
    shapes: Vec<Shape>,
    next_group_id: u32,
    in_group: bool,
    first_shape_in_group: usize,
    binner: ShapeBinner,
    started: bool,
}

impl View for Painter {
    type V = PainterState;

    closed spec fn view(&self) -> PainterState {
        PainterState {
            shapes: self.shapes@,
            next_group_id: self.next_group_id,
            in_group: self.in_group,
            first_shape_in_group: self.first_shape_in_group as int,
            started: self.started,
            binner: self.binner,
        }
    }
}

impl Painter {
    /// The painter's binner holds a grid.
    pub open spec fn wf(&self) -> bool {
        self@.binner.wf()
    }

    /// A painter with no frame open and no shape, for tiles of edge
    /// `TILE_SIZE`.
    pub fn new() -> (r: Self)
        ensures
            r.wf(),
            r@.shapes == Seq::<Shape>::empty(),
            r@.next_group_id == 0,
            !r@.in_group,
            r@.first_shape_in_group == 0,
            !r@.started,
            r@.binner.tile_size == TILE_SIZE,
            r@.binner.resolution == (0u32, 0u32),
            r@.binner.tile_ranges@.len() == 0,
            r@.binner.shape_indices@.len() == 0,
    {
        Self::with_tile_size(TILE_SIZE)
    }

    /// A painter with no frame open and no shape, for tiles of the given
    /// edge: a length in the unit of the coordinates.
    pub fn with_tile_size(tile_size: u32) -> (r: Self)
        requires
            tile_size > 0,
        ensures
            r.wf(),
            r@.shapes == Seq::<Shape>::empty(),
            r@.next_group_id == 0,
            !r@.in_group,
            r@.first_shape_in_group == 0,
            !r@.started,
            r@.binner.tile_size == tile_size,
            r@.binner.resolution == (0u32, 0u32),
            r@.binner.tile_ranges@.len() == 0,
            r@.binner.shape_indices@.len() == 0,
    {
        assert(tiles_across(0, tile_size as int) == 0);
        assert(tiles_across(0, tile_size as int) * tiles_across(0, tile_size as int) == 0)
            by (nonlinear_arith)
            requires
                tiles_across(0, tile_size as int) == 0,
        ;
        Self {
            shapes: Vec::new(),
            next_group_id: 0,
            in_group: false,
            first_shape_in_group: 0,
            binner: ShapeBinner::new(tile_size, (0, 0)),
            started: false,
        }
    }

    /// Whether a frame is open.
    pub fn is_started(&self) -> (r: bool)
        ensures
            r == self@.started,
    {
        self.started
    }

    /// Whether a group is open.
    pub fn is_in_group(&self) -> (r: bool)
        ensures
            r == self@.in_group,
    {
        self.in_group
    }

    /// The group id that the next shape gets.
    pub fn next_group_id(&self) -> (r: u32)
        ensures
            r == self@.next_group_id,
    {
        self.next_group_id
    }

    /// The shapes of the frame so far.
    pub fn shapes(&self) -> (r: &[Shape])
        ensures
            r@ == self@.shapes,
    {
        self.shapes.as_slice()
    }

    /// The binner, with the output of the last frame.
    pub fn binner(&self) -> (r: &ShapeBinner)
        ensures
            *r == self@.binner,
    {
        &self.binner
    }

    /// Adds a shape to the frame and gives it its group id: that of the open
    /// group, or else an id of its own. A shape can only be added while a
    /// frame is open. The shape that is returned is the one in the frame:
    /// what is changed through it is changed there.
    pub fn add_shape(&mut self, shape: Shape) -> (ret: &mut Shape)
        requires
            old(self)@.started,
            old(self)@.in_group || old(self)@.next_group_id < u32::MAX,
        ensures
            *ret == old(self)@.assigned(shape),
            final(self)@ == old(self)@.after_add(*final(ret)),
    {
        let mut shape = shape;
        shape.group_id = if self.in_group {
            self.next_group_id
        } else {
            self.first_shape_in_group = self.shapes.len();
            self.next_group_id = self.next_group_id + 1;
            self.next_group_id - 1
        };
        self.shapes.push(shape);
        let last: usize = self.shapes.len() - 1;
        proof {
            let pushed = self.shapes@;
            assert forall|stored: Shape| #[trigger]
                pushed.update(last as int, stored) == old(self).shapes@.push(stored) by {
                assert(pushed.update(last as int, stored) =~= old(self).shapes@.push(stored));
            }
        }
        &mut self.shapes[last]
    }

    fn clear_shapes(&mut self)
        ensures
            final(self)@ == (PainterState {
                shapes: Seq::empty(),
                next_group_id: 0,
                in_group: false,
                ..old(self)@
            }),
    {
        self.shapes.clear();
        self.next_group_id = 0;
        self.in_group = false;
    }

    /// Opens a frame for a screen of the given resolution.
    pub fn start(&mut self, resolution: (u32, u32))
        requires
            !old(self)@.started,
            old(self).wf(),
            spec_grid_fits(old(self)@.binner.tile_size, resolution),
        ensures
            final(self).wf(),
            final(self)@.started,
            final(self)@.binner.tile_size == old(self)@.binner.tile_size,
            final(self)@.shapes == old(self)@.shapes,
            final(self)@.next_group_id == old(self)@.next_group_id,
            final(self)@.in_group == old(self)@.in_group,
            final(self)@.first_shape_in_group == old(self)@.first_shape_in_group,
            final(self)@.binner.resolution == resolution,
            forall|t: int|
                0 <= t < final(self)@.binner.tile_count() ==> (
                #[trigger] final(self)@.binner.shapes_by_tile@[t])@.len() == 0,
            final(self)@.binner.tile_ranges == old(self)@.binner.tile_ranges,
            final(self)@.binner.shape_indices == old(self)@.binner.shape_indices,
    {
        self.binner.update_resolution(resolution);
        self.started = true;
    }

    /// Whether `start` can open a frame of this resolution: the tiles of the
    /// grid can be numbered by a `u32`.
    pub fn resolution_fits(&self, resolution: (u32, u32)) -> (r: bool)
        ensures
            r == spec_grid_fits(self@.binner.tile_size, resolution),
    {
        grid_fits(self.binner.tile_size, resolution)
    }

    /// Whether `finish` can bin the shapes of the frame: see
    /// `ShapeBinner::can_bin`.
    pub fn can_finish(&self) -> (r: bool)
        requires
            self.wf(),
        ensures
            r == (self@.shapes.len() <= u32::MAX && self@.shapes.len()
                * self@.binner.tile_count() <= u32::MAX),
            r ==> binned_total(
                self@.shapes,
                self@.binner.tile_size as int,
                self@.binner.tiles_x(),
                self@.binner.tile_count(),
            ) <= u32::MAX,
    {
        self.binner.can_bin(self.shapes.len())
    }

    /// What the callback of `finish` is handed: the shapes of the frame and a
    /// binner that holds their binning on the painter's grid.
    pub open spec fn finished_with(&self, shapes: &[Shape], binner: &ShapeBinner) -> bool {
        &&& shapes@ == self@.shapes
        &&& binner.tile_size == self@.binner.tile_size
        &&& binner.resolution == self@.binner.resolution
        &&& binner.holds_binning_of(shapes@)
        &&& binner.ranges_well_formed()
    }

    /// Closes the frame: bins the shapes, hands them and the binner to the
    /// callback, and then drops the shapes and starts the group ids anew.
    pub fn finish<F: FnOnce(&[Shape], &ShapeBinner)>(&mut self, f: F)
        requires
            old(self)@.started,
            old(self).wf(),
            old(self)@.shapes.len() <= u32::MAX,
            binned_total(
                old(self)@.shapes,
                old(self)@.binner.tile_size as int,
                old(self)@.binner.tiles_x(),
                old(self)@.binner.tile_count(),
            ) <= u32::MAX,
            forall|shapes: &[Shape], binner: &ShapeBinner|
                old(self).finished_with(shapes, binner) ==> call_requires(f, (shapes, binner)),
        ensures
            final(self).wf(),
            !final(self)@.started,
            final(self)@.shapes == Seq::<Shape>::empty(),
            final(self)@.next_group_id == 0,
            !final(self)@.in_group,
            final(self)@.first_shape_in_group == old(self)@.first_shape_in_group,
            final(self)@.binner.tile_size == old(self)@.binner.tile_size,
            final(self)@.binner.resolution == old(self)@.binner.resolution,
            final(self)@.binner.holds_binning_of(old(self)@.shapes),
            final(self)@.binner.ranges_well_formed(),
            exists|shapes: &[Shape], binner: &ShapeBinner|
                old(self).finished_with(shapes, binner) && *binner == final(self)@.binner
                    && call_ensures(f, (shapes, binner), ()),
    {
        self.binner.bin_shapes(self.shapes.as_slice());
        let shapes: &[Shape] = self.shapes.as_slice();
        let binner: &ShapeBinner = &self.binner;
        assert(old(self).finished_with(shapes, binner));
        f(shapes, binner);
        self.clear_shapes();
        self.started = false;
    }

    /// Opens a group: the shapes added until `end_group` share one group id.
    /// A group that is open is closed first.
    pub fn begin_group(&mut self)
        requires
            !old(self)@.in_group || old(self)@.next_group_id < u32::MAX,
        ensures
            final(self)@ == old(self)@.after_begin_group(),
    {
        if self.in_group {
            self.next_group_id = self.next_group_id + 1;
        }
        self.in_group = true;
        self.first_shape_in_group = self.shapes.len();
    }

    /// Closes the group.
    pub fn end_group(&mut self)
        requires
            old(self)@.next_group_id < u32::MAX,
        ensures
            final(self)@ == old(self)@.after_end_group(),
    {
        self.in_group = false;
        self.next_group_id = self.next_group_id + 1;
    }
}

impl Default for Painter {
    fn default() -> (r: Self)
        ensures
            r.wf(),
            r@.shapes == Seq::<Shape>::empty(),
            r@.next_group_id == 0,
            !r@.in_group,
            !r@.started,
            r@.binner.tile_size == TILE_SIZE,
            r@.binner.resolution == (0u32, 0u32),
    {
        Self::new()
    }
}

// The helpers that build a shape from its numbers.
impl Painter {
    /// Adds a filled shape of the primitive, in the colour.
    pub fn add_primitive(&mut self, primitive: Primitive, color: Vec4) -> (ret: &mut Shape)
        requires
            old(self)@.started,
            old(self)@.in_group || old(self)@.next_group_id < u32::MAX,
        ensures
            *ret == (Shape {
                group_id: old(self)@.next_group_id,
                ..plain_shape(primitive, color)
            }),
            final(self)@ == old(self)@.after_add(*final(ret)),
    {
        let shape = Shape {
            primitive,
            color,
            distance_offset: 0,
            line_width: 0,
            group_id: 0,
            texture_id: None,
            flags: ShapeFlags::empty(),
            glow: Vec4::new(0, 0, 0, 0),
        };
        self.add_shape(shape)
    }

    /// Adds the outline of a circle.
    pub fn add_circle(
        &mut self,
        center: Vec2,
        radius: i32,
        color: Vec4,
        line_width: i32,
    ) -> (ret: &mut Shape)
        requires
            old(self)@.started,
            old(self)@.in_group || old(self)@.next_group_id < u32::MAX,
        ensures
            *ret == (Shape {
                group_id: old(self)@.next_group_id,
                line_width: line_width,
                ..plain_shape(Primitive::Circle { center, radius }, color)
            }),
            final(self)@ == old(self)@.after_add(*final(ret)),
    {
        self.add_primitive(Primitive::Circle { center, radius }, color).with_line_width(line_width)
    }

    /// Adds a filled circle.
    pub fn add_filled_circle(
        &mut self,
        center: Vec2,
        radius: i32,
        color: Vec4,
    ) -> (ret: &mut Shape)
        requires
            old(self)@.started,
            old(self)@.in_group || old(self)@.next_group_id < u32::MAX,
        ensures
            *ret == (Shape {
                group_id: old(self)@.next_group_id,
                ..plain_shape(Primitive::Circle { center, radius }, color)
            }),
            final(self)@ == old(self)@.after_add(*final(ret)),
    {
        self.add_primitive(Primitive::Circle { center, radius }, color)
    }

    /// Adds the outline of the rounded rectangle with the corners `min` and `max`.
    pub fn add_rect(
        &mut self,
        min: Vec2,
        max: Vec2,
        corner_radius: CornerRadius,
        color: Vec4,
        line_width: i32,
    ) -> (ret: &mut Shape)
        requires
            old(self)@.started,
            old(self)@.in_group || old(self)@.next_group_id < u32::MAX,
        ensures
            *ret == (Shape {
                group_id: old(self)@.next_group_id,
                line_width: line_width,
                ..plain_shape(Primitive::Rect {
                        center: rect_center(min, max),
                        half_extents: rect_half_extents(min, max),
                        corner_radius,
                    }, color)
            }),
            final(self)@ == old(self)@.after_add(*final(ret)),
    {
        let center = Vec2 { x: mid(min.x, max.x), y: mid(min.y, max.y) };
        let half_extents = Vec2 { x: half_span(min.x, max.x), y: half_span(min.y, max.y) };
        self.add_primitive(Primitive::Rect { center, half_extents, corner_radius }, color).with_line_width(line_width)
    }

    /// Adds the filled rounded rectangle with the corners `min` and `max`.
    pub fn add_filled_rect(
        &mut self,
        min: Vec2,
        max: Vec2,
        corner_radius: CornerRadius,
        color: Vec4,
    ) -> (ret: &mut Shape)
        requires
            old(self)@.started,
            old(self)@.in_group || old(self)@.next_group_id < u32::MAX,
        ensures
            *ret == (Shape {
                group_id: old(self)@.next_group_id,
                ..plain_shape(Primitive::Rect {
                        center: rect_center(min, max),
                        half_extents: rect_half_extents(min, max),
                        corner_radius,
                    }, color)
            }),
            final(self)@ == old(self)@.after_add(*final(ret)),
    {
        let center = Vec2 { x: mid(min.x, max.x), y: mid(min.y, max.y) };
        let half_extents = Vec2 { x: half_span(min.x, max.x), y: half_span(min.y, max.y) };
        self.add_primitive(Primitive::Rect { center, half_extents, corner_radius }, color)
    }

    /// Adds the outline of a rounded rectangle, given by its centre and half its size.
    pub fn add_rect_center_size(
        &mut self,
        center: Vec2,
        half_extents: Vec2,
        corner_radius: CornerRadius,
        color: Vec4,
        line_width: i32,
    ) -> (ret: &mut Shape)
        requires
            old(self)@.started,
            old(self)@.in_group || old(self)@.next_group_id < u32::MAX,
        ensures
            *ret == (Shape {
                group_id: old(self)@.next_group_id,
                line_width: line_width,
                ..plain_shape(Primitive::Rect { center, half_extents, corner_radius }, color)
            }),
            final(self)@ == old(self)@.after_add(*final(ret)),
    {
        self.add_primitive(Primitive::Rect { center, half_extents, corner_radius }, color).with_line_width(line_width)
    }

    /// Adds a filled rounded rectangle, given by its centre and half its size.
    pub fn add_filled_rect_center_size(
        &mut self,
        center: Vec2,
        half_extents: Vec2,
        corner_radius: CornerRadius,
        color: Vec4,
    ) -> (ret: &mut Shape)
        requires
            old(self)@.started,
            old(self)@.in_group || old(self)@.next_group_id < u32::MAX,
        ensures
            *ret == (Shape {
                group_id: old(self)@.next_group_id,
                ..plain_shape(Primitive::Rect { center, half_extents, corner_radius }, color)
            }),
            final(self)@ == old(self)@.after_add(*final(ret)),
    {
        self.add_primitive(Primitive::Rect { center, half_extents, corner_radius }, color)
    }

    /// Adds a line from `p1` to `p2`, its field moved inward by `radius`.
    pub fn add_line(
        &mut self,
        p1: Vec2,
        p2: Vec2,
        radius: i32,
        color: Vec4,
    ) -> (ret: &mut Shape)
        requires
            old(self)@.started,
            old(self)@.in_group || old(self)@.next_group_id < u32::MAX,
        ensures
            *ret == (Shape {
                group_id: old(self)@.next_group_id,
                distance_offset: radius,
                ..plain_shape(Primitive::Line { p1, p2 }, color)
            }),
            final(self)@ == old(self)@.after_add(*final(ret)),
    {
        self.add_primitive(Primitive::Line { p1, p2 }, color).with_distance_offset(radius)
    }

    /// Adds a line from `p1` to `p2`, drawn `radius` thick to each side.
    pub fn add_filled_line(
        &mut self,
        p1: Vec2,
        p2: Vec2,
        radius: i32,
        color: Vec4,
    ) -> (ret: &mut Shape)
        requires
            old(self)@.started,
            old(self)@.in_group || old(self)@.next_group_id < u32::MAX,
            radius > i32::MIN,
        ensures
            *ret == (Shape {
                group_id: old(self)@.next_group_id,
                distance_offset: (-radius) as i32,
                ..plain_shape(Primitive::Line { p1, p2 }, color)
            }),
            final(self)@ == old(self)@.after_add(*final(ret)),
    {
        self.add_primitive(Primitive::Line { p1, p2 }, color).with_distance_offset(-radius)
    }

    /// Adds the outline of a triangle.
    pub fn add_triangle(
        &mut self,
        p1: Vec2,
        p2: Vec2,
        p3: Vec2,
        color: Vec4,
        line_width: i32,
    ) -> (ret: &mut Shape)
        requires
            old(self)@.started,
            old(self)@.in_group || old(self)@.next_group_id < u32::MAX,
        ensures
            *ret == (Shape {
                group_id: old(self)@.next_group_id,
                line_width: line_width,
                ..plain_shape(Primitive::Triangle { p1, p2, p3 }, color)
            }),
            final(self)@ == old(self)@.after_add(*final(ret)),
    {
        self.add_primitive(Primitive::Triangle { p1, p2, p3 }, color).with_line_width(line_width)
    }

    /// Adds a filled triangle.
    pub fn add_filled_triangle(
        &mut self,
        p1: Vec2,
        p2: Vec2,
        p3: Vec2,
        color: Vec4,
    ) -> (ret: &mut Shape)
        requires
            old(self)@.started,
            old(self)@.in_group || old(self)@.next_group_id < u32::MAX,
        ensures
            *ret == (Shape {
                group_id: old(self)@.next_group_id,
                ..plain_shape(Primitive::Triangle { p1, p2, p3 }, color)
            }),
            final(self)@ == old(self)@.after_add(*final(ret)),
    {
        self.add_primitive(Primitive::Triangle { p1, p2, p3 }, color)
    }

    /// Adds the outline of the part of a ring between two angles.
    pub fn add_circle_sector(
        &mut self,
        center: Vec2,
        radius_inner: i32,
        radius_outer: i32,
        angle_start: i32,
        angle_end: i32,
        color: Vec4,
        line_width: i32,
    ) -> (ret: &mut Shape)
        requires
            old(self)@.started,
            old(self)@.in_group || old(self)@.next_group_id < u32::MAX,
        ensures
            *ret == (Shape {
                group_id: old(self)@.next_group_id,
                line_width: line_width,
                ..plain_shape(Primitive::CircleSector {
                        center,
                        radius_inner,
                        radius_outer,
                        angle_start,
                        angle_end,
                    }, color)
            }),
            final(self)@ == old(self)@.after_add(*final(ret)),
    {
        self.add_primitive(Primitive::CircleSector { center, radius_inner, radius_outer, angle_start, angle_end }, color).with_line_width(line_width)
    }

    /// Adds the filled part of a ring between two angles.
    pub fn add_filled_circle_sector(
        &mut self,
        center: Vec2,
        radius_inner: i32,
        radius_outer: i32,
        angle_start: i32,
        angle_end: i32,
        color: Vec4,
    ) -> (ret: &mut Shape)
        requires
            old(self)@.started,
            old(self)@.in_group || old(self)@.next_group_id < u32::MAX,
        ensures
            *ret == (Shape {
                group_id: old(self)@.next_group_id,
                ..plain_shape(Primitive::CircleSector {
                        center,
                        radius_inner,
                        radius_outer,
                        angle_start,
                        angle_end,
                    }, color)
            }),
            final(self)@ == old(self)@.after_add(*final(ret)),
    {
        self.add_primitive(Primitive::CircleSector { center, radius_inner, radius_outer, angle_start, angle_end }, color)
    }

    /// Adds the outline of a convex quad.
    pub fn add_polyquad(
        &mut self,
        p1: Vec2,
        p2: Vec2,
        p3: Vec2,
        p4: Vec2,
        color: Vec4,
        line_width: i32,
    ) -> (ret: &mut Shape)
        requires
            old(self)@.started,
            old(self)@.in_group || old(self)@.next_group_id < u32::MAX,
        ensures
            *ret == (Shape {
                group_id: old(self)@.next_group_id,
                line_width: line_width,
                ..plain_shape(Primitive::PolyQuad { points: [p1, p2, p3, p4] }, color)
            }),
            final(self)@ == old(self)@.after_add(*final(ret)),
    {
        let points: [Vec2; 4] = [p1, p2, p3, p4];
        self.add_primitive(Primitive::PolyQuad { points }, color).with_line_width(line_width)
    }

    /// Adds a filled convex quad.
    pub fn add_filled_polyquad(
        &mut self,
        p1: Vec2,
        p2: Vec2,
        p3: Vec2,
        p4: Vec2,
        color: Vec4,
    ) -> (ret: &mut Shape)
        requires
            old(self)@.started,
            old(self)@.in_group || old(self)@.next_group_id < u32::MAX,
        ensures
            *ret == (Shape {
                group_id: old(self)@.next_group_id,
                ..plain_shape(Primitive::PolyQuad { points: [p1, p2, p3, p4] }, color)
            }),
            final(self)@ == old(self)@.after_add(*final(ret)),
    {
        let points: [Vec2; 4] = [p1, p2, p3, p4];
        self.add_primitive(Primitive::PolyQuad { points }, color)
    }
}

} // verus!
