use vstd::prelude::*;

use std::hash::{BuildHasher, BuildHasherDefault, DefaultHasher};

use crate::id_map::IdMap;
use crate::name_map::lemma_push_contains;
use crate::shader::{
    parse_wgsl, wgsl_types, with_drawn, is_drawn, uniform_settable, has_pending_upload, write_bytes,
    FullscreenShaders, ShaderError, ShaderLoadRequest, ShaderView, UniformBuffer, UniformBufferView,
};

verus! {

/// The kinds of shape a sketch can draw.
#[derive(Clone, Copy, PartialEq, Eq, Debug)]
pub enum ShapeKind {
    Ellipse,
    Rect,
    Quad,
    Polygon,
    Polyline,
    Spline,
    Path,
}

/// What an entry of the drawing order stands for: a shape of some kind, or
/// a fullscreen shader pass.
#[derive(Clone, Copy, PartialEq, Eq, Debug)]
pub enum ShapeType {
    Shape(ShapeKind),
    FullscreenShader,
}

/// A shape being described by a sketch: its kind, the draw (transform) it is
/// drawn with, and the commands (position, size, colours, points...) given
/// to it so far, in order.
pub struct Shape<C> {
    pub kind: ShapeKind,
    pub draw_id: u32,
    pub commands: Vec<C>,
}

/// What one entry of a frame draws.
#[derive(Clone, Copy, PartialEq, Eq, Debug)]
pub enum FrameContent {
    /// The shape with this id.
    Shape(u32),
    /// A pass of the fullscreen shader with this id; only a loaded shader
    /// draws anything.
    FullscreenShader { id: u32, loaded: bool },
}

/// One entry of a frame: what to draw, and with which draw (0 is the
/// sketch's base draw).
#[derive(Clone, Copy, PartialEq, Eq, Debug)]
pub struct FrameItem {
    pub draw_id: u32,
    pub content: FrameContent,
}

/// The draw state as plain values. Draw ids 1 to `draws.len()` name the
/// stored draws; 0 names the sketch's base draw.
pub struct DrawView<D, C> {
    pub draws: Seq<D>,
    pub next_shape_id: u32,
    pub shapes: Map<u32, Shape<C>>,
    pub shaders: Map<u32, (u32, u32)>,
    pub order: Seq<(u32, ShapeType)>,
    pub width: u32,
    pub height: u32,
    pub fullscreen_shaders: Map<u32, ShaderView>,
}

/// The draw id a shape or shader pass is drawn with: the given one when it
/// names the base draw or a stored draw, and the base draw otherwise.
pub open spec fn clamp_spec(draw_count: nat, id: u32) -> u32 {
    if id == 0 {
        0
    } else if id <= draw_count {
        id
    } else {
        0
    }
}

/// Every entry of the drawing order can be found: a shape entry has a shape
/// of its kind, a shader entry has its shader pass.
pub open spec fn order_resolvable<D, C>(v: DrawView<D, C>) -> bool {
    forall|i: int|
        0 <= i < v.order.len() ==> match #[trigger] v.order[i].1 {
            ShapeType::Shape(kind) => v.shapes.contains_key(v.order[i].0) && v.shapes[v.order[i].0].kind == kind,
            ShapeType::FullscreenShader => v.shaders.contains_key(v.order[i].0),
        }
}

/// What an entry of the drawing order draws.
pub open spec fn frame_item<D, C>(v: DrawView<D, C>, entry: (u32, ShapeType)) -> FrameItem {
    match entry.1 {
        ShapeType::Shape(_) => FrameItem { draw_id: v.shapes[entry.0].draw_id, content: FrameContent::Shape(entry.0) },
        ShapeType::FullscreenShader => FrameItem {
            draw_id: v.shaders[entry.0].0,
            content: FrameContent::FullscreenShader {
                id: v.shaders[entry.0].1,
                loaded: v.fullscreen_shaders[v.shaders[entry.0].1] is Loaded,
            },
        },
    }
}

/// A fullscreen shader pass, once queued, is drawn with the draw it was
/// queued with (a stored draw, or the base draw when the id names none) and
/// draws the shader it was queued for, loaded or not as that shader is.
pub proof fn law_shader_pass_drawn_with_its_draw<D, C>(v: DrawView<D, C>, draw_id: u32, shader_id: u32)
    requires
        v.fullscreen_shaders.contains_key(shader_id),
    ensures
        ({
            let w = DrawView {
                shaders: v.shaders.insert(v.next_shape_id, (clamp_spec(v.draws.len(), draw_id), shader_id)),
                order: v.order.push((v.next_shape_id, ShapeType::FullscreenShader)),
                fullscreen_shaders: v.fullscreen_shaders.insert(
                    shader_id,
                    with_drawn(v.fullscreen_shaders[shader_id], true),
                ),
                ..v
            };
            let item = frame_item(w, w.order.last());
            &&& 1 <= draw_id <= v.draws.len() ==> item.draw_id == draw_id
            &&& (draw_id == 0 || draw_id > v.draws.len()) ==> item.draw_id == 0
            &&& item.content == FrameContent::FullscreenShader {
                id: shader_id,
                loaded: v.fullscreen_shaders[shader_id] is Loaded,
            }
        }),
{
}

/// A shape, once started, is drawn with the draw it was started with (a
/// stored draw, or the base draw when the id names none), under its own id.
pub proof fn law_shape_drawn_with_its_draw<D, C>(v: DrawView<D, C>, kind: ShapeKind, draw_id: u32, commands: Vec<C>)
    requires
        v.next_shape_id < u32::MAX,
    ensures
        ({
            let id = (v.next_shape_id + 1) as u32;
            let w = DrawView {
                next_shape_id: id,
                shapes: v.shapes.insert(id, Shape { kind, draw_id: clamp_spec(v.draws.len(), draw_id), commands }),
                order: v.order.push((id, ShapeType::Shape(kind))),
                ..v
            };
            let item = frame_item(w, w.order.last());
            &&& 1 <= draw_id <= v.draws.len() ==> item.draw_id == draw_id
            &&& (draw_id == 0 || draw_id > v.draws.len()) ==> item.draw_id == 0
            &&& item.content == FrameContent::Shape(id)
        }),
{
}

/// Once the draws are reset, every draw id falls back to the base draw.
pub proof fn law_reset_falls_back_to_base(id: u32)
    ensures
        clamp_spec(0, id) == 0,
{
}

/// A shape or shader pass drawn with an id that names no stored draw is
/// drawn with the base draw; a valid id is kept.
pub proof fn law_clamp_keeps_valid_ids(draw_count: nat, id: u32)
    ensures
        1 <= id <= draw_count ==> clamp_spec(draw_count, id) == id,
        (id == 0 || id > draw_count) ==> clamp_spec(draw_count, id) == 0,
{
}

/// The sizes after recording each sketch size of `seen`, in order.
pub open spec fn sizes_after(m: Map<u128, (u32, u32)>, seen: Seq<(u128, u32, u32)>) -> Map<u128, (u32, u32)>
    decreases seen.len(),
{
    if seen.len() == 0 {
        m
    } else {
        let last = seen.last();
        sizes_after(m, seen.drop_last()).insert(last.0, (last.1, last.2))
    }
}

/// The entries of `seen` whose sketch had another size recorded when the
/// entry was reached, in order.
pub open spec fn resized_in(m: Map<u128, (u32, u32)>, seen: Seq<(u128, u32, u32)>) -> Seq<(u128, u32, u32)>
    decreases seen.len(),
{
    if seen.len() == 0 {
        Seq::empty()
    } else {
        let prev = sizes_after(m, seen.drop_last());
        let last = seen.last();
        let earlier = resized_in(m, seen.drop_last());
        if prev.contains_key(last.0) && prev[last.0] != (last.1, last.2) {
            earlier.push(last)
        } else {
            earlier
        }
    }
}

/// No two entries of `seen` are about the same sketch.
pub open spec fn distinct_sketches(seen: Seq<(u128, u32, u32)>) -> bool {
    forall|i: int, j: int| 0 <= i < j < seen.len() ==> #[trigger] seen[i].0 != #[trigger] seen[j].0
}

/// Recording the sizes of distinct sketches reports as resized exactly the
/// sketches that had a size recorded before and now have another one; a
/// sketch seen for the first time is never reported.
pub proof fn law_resized_are_changed_sizes(m: Map<u128, (u32, u32)>, seen: Seq<(u128, u32, u32)>, e: (u128, u32, u32))
    requires
        distinct_sketches(seen),
    ensures
        resized_in(m, seen).contains(e) <==> (seen.contains(e) && m.contains_key(e.0) && m[e.0] != (e.1, e.2)),
    decreases seen.len(),
{
    if seen.len() > 0 {
        let p = seen.drop_last();
        let last = seen.last();
        assert(distinct_sketches(p)) by {
            assert forall|i: int, j: int| 0 <= i < j < p.len() implies #[trigger] p[i].0 != #[trigger] p[j].0 by {
                assert(p[i] == seen[i] && p[j] == seen[j]);
            }
        }
        law_resized_are_changed_sizes(m, p, e);
        lemma_sizes_after_other(m, p, last.0);
        lemma_push_contains(p, last, e);
        lemma_push_contains(resized_in(m, p), last, e);
        assert(seen =~= p.push(last));
        if e != last && e.0 == last.0 && seen.contains(e) {
            let i = choose|i: int| 0 <= i < seen.len() && seen[i] == e;
            assert(seen[i].0 == seen[seen.len() - 1].0);
        }
        if e != last && e.0 == last.0 && resized_in(m, p).contains(e) {
            assert(p.contains(e));
            let i = choose|i: int| 0 <= i < p.len() && p[i] == e;
            assert(seen[i].0 == seen[seen.len() - 1].0);
        }
    }
}

/// A sketch that no entry of `seen` is about keeps its recorded size.
pub proof fn lemma_sizes_after_other(m: Map<u128, (u32, u32)>, seen: Seq<(u128, u32, u32)>, id: u128)
    requires
        forall|i: int| 0 <= i < seen.len() ==> #[trigger] seen[i].0 != id,
    ensures
        sizes_after(m, seen).contains_key(id) == m.contains_key(id),
        m.contains_key(id) ==> sizes_after(m, seen)[id] == m[id],
    decreases seen.len(),
{
    if seen.len() > 0 {
        let p = seen.drop_last();
        assert forall|i: int| 0 <= i < p.len() implies #[trigger] p[i].0 != id by {
            assert(p[i] == seen[i]);
        }
        lemma_sizes_after_other(m, p, id);
    }
}

/// The size of the render texture last seen for each sketch (0 x 0 for a
/// sketch without one), kept from one engine update to the next so that
/// resized sketches can be told apart.
pub struct SketchSizes {
    sizes: IdMap<u128, (u32, u32)>,
}

impl View for SketchSizes {
    type V = Map<u128, (u32, u32)>;

    closed spec fn view(&self) -> Map<u128, (u32, u32)> {
        self.sizes@
    }
}

impl SketchSizes {
    pub fn new() -> (r: Self)
        ensures
            r@ == Map::<u128, (u32, u32)>::empty(),
    {
        SketchSizes { sizes: IdMap::new() }
    }

    /// The size last seen for the sketch `id`.
    pub fn size_of(&self, id: u128) -> (r: Option<(u32, u32)>)
        ensures
            r is Some <==> self@.contains_key(id),
            r matches Some(size) ==> size == self@[id],
    {
        match self.sizes.get(id) {
            Some(size) => Some(*size),
            None => None,
        }
    }

    /// Records the size of each sketch of `seen` (id, width, height), in
    /// order, and returns the entries whose sketch had another size
    /// recorded: the sketches whose shaders must be resized.
    pub fn update(&mut self, seen: &Vec<(u128, u32, u32)>) -> (resized: Vec<(u128, u32, u32)>)
        ensures
            final(self)@ == sizes_after(old(self)@, seen@),
            resized@ == resized_in(old(self)@, seen@),
    {
        let ghost start = self@;
        let mut resized: Vec<(u128, u32, u32)> = Vec::new();
        let mut i: usize = 0;
        while i < seen.len()
            invariant
                i <= seen@.len(),
                self@ == sizes_after(start, seen@.take(i as int)),
                resized@ == resized_in(start, seen@.take(i as int)),
            decreases seen@.len() - i,
        {
            proof {
                assert(seen@.take(i + 1).drop_last() =~= seen@.take(i as int));
            }
            let (id, w, h) = seen[i];
            match self.sizes.get(id) {
                Some(current) => {
                    if current.0 != w || current.1 != h {
                        resized.push((id, w, h));
                    }
                },
                None => {},
            }
            self.sizes.insert(id, (w, h));
            i = i + 1;
        }
        proof {
            assert(seen@.take(seen@.len() as int) =~= seen@);
        }
        resized
    }
}

/// The plugin that lets sketches draw shapes and shader passes.
pub struct DrawPlugin;

impl DrawPlugin {
    /// The draw state a sketch starts with when it is built.
    pub fn new_sketch_state<D, C>() -> (s: DrawState<D, C>)
        ensures
            s.wf(),
            s@.draws.len() == 0,
            s@.next_shape_id == 0,
            s@.shapes == Map::<u32, Shape<C>>::empty(),
            s@.shaders == Map::<u32, (u32, u32)>::empty(),
            s@.order.len() == 0,
            s@.fullscreen_shaders == Map::<u32, ShaderView>::empty(),
    {
        DrawState::new()
    }
}

/// The 64-bit hash that std's `DefaultHasher` gives a string (for a given
/// build of std: the algorithm is fixed and unseeded, though std may change
/// it between releases).
pub uninterp spec fn default_hash_of_str(s: Seq<char>) -> u64;

/// Calls `BuildHasher::hash_one` on `BuildHasherDefault<DefaultHasher>`,
/// which hashes `s` with a fresh `DefaultHasher::new()` and returns
/// `finish()`. Claimed of it: the result is `default_hash_of_str` of the
/// text.
#[verifier::external_body]
fn hash_str(s: &str) -> (h: u64)
    ensures
        h == default_hash_of_str(s@),
{
    BuildHasherDefault::<DefaultHasher>::default().hash_one(s)
}

/// The id of a fullscreen shader, derived from the path of its source.
#[derive(Clone, Copy, PartialEq, Eq, Debug)]
pub struct FullscreenShaderId(pub u32);

impl FullscreenShaderId {
    /// The low 32 bits of the default hash of `path`.
    pub fn new(path: &str) -> (id: Self)
        ensures
            id.0 == default_hash_of_str(path@) as u32,
    {
        let h = hash_str(path);
        FullscreenShaderId(h as u32)
    }
}

/// The per-sketch state of the draw plugin: the draws (transforms) stored by
/// the sketch during the current update, the shapes and shader passes it
/// described, and the order in which they are to be drawn. `D` is a draw,
/// `C` a shape command.
pub struct DrawState<D, C> {
    draws: Vec<D>,
    next_shape_id: u32,
    shapes: IdMap<u32, Shape<C>>,
    shaders: IdMap<u32, (u32, u32)>,
    order: Vec<(u32, ShapeType)>,
    width: u32,
    height: u32,
    fullscreen_shaders: FullscreenShaders,
}

impl<D, C> View for DrawState<D, C> {
    type V = DrawView<D, C>;

    closed spec fn view(&self) -> DrawView<D, C> {
        DrawView {
            draws: self.draws@,
            next_shape_id: self.next_shape_id,
            shapes: self.shapes@,
            shaders: self.shaders@,
            order: self.order@,
            width: self.width,
            height: self.height,
            fullscreen_shaders: self.fullscreen_shaders@,
        }
    }
}

impl<D, C> DrawState<D, C> {
    /// No entry of the drawing order has an id above the last one handed
    /// out, and every shader pass is of a requested shader.
    pub closed spec fn wf(&self) -> bool {
        &&& forall|i: int| 0 <= i < self.order@.len() ==> #[trigger] self.order@[i].0 <= self.next_shape_id
        &&& self.fullscreen_shaders.wf()
        &&& forall|k: u32| #[trigger] self.shaders@.contains_key(k) ==> self.fullscreen_shaders@.contains_key(
            self.shaders@[k].1,
        )
    }

    /// The state of a sketch that was just built: nothing stored, size 0 x 0.
    pub fn new() -> (s: Self)
        ensures
            s.wf(),
            s@.draws.len() == 0,
            s@.next_shape_id == 0,
            s@.shapes == Map::<u32, Shape<C>>::empty(),
            s@.shaders == Map::<u32, (u32, u32)>::empty(),
            s@.order.len() == 0,
            s@.width == 0,
            s@.height == 0,
            s@.fullscreen_shaders == Map::<u32, ShaderView>::empty(),
    {
        DrawState {
            draws: Vec::new(),
            next_shape_id: 0,
            shapes: IdMap::new(),
            shaders: IdMap::new(),
            order: Vec::new(),
            width: 0,
            height: 0,
            fullscreen_shaders: FullscreenShaders::new(),
        }
    }

    /// The size of the render texture the sketch draws into.
    pub fn width(&self) -> (w: u32)
        ensures
            w == self@.width,
    {
        self.width
    }

    pub fn height(&self) -> (h: u32)
        ensures
            h == self@.height,
    {
        self.height
    }

    /// Records the size of the sketch's render texture for this update.
    pub fn set_size(&mut self, width: u32, height: u32)
        requires
            old(self).wf(),
        ensures
            final(self).wf(),
            final(self)@ == (DrawView { width, height, ..old(self)@ }),
    {
        self.width = width;
        self.height = height;
    }

    /// Stores a new draw (a transformed copy of another) and returns its id:
    /// the next one after those stored during this update.
    pub fn store_draw(&mut self, draw: D) -> (id: u32)
        requires
            old(self).wf(),
            old(self)@.draws.len() < u32::MAX,
        ensures
            final(self).wf(),
            id == old(self)@.draws.len() + 1,
            final(self)@ == (DrawView { draws: old(self)@.draws.push(draw), ..old(self)@ }),
    {
        self.draws.push(draw);
        self.draws.len() as u32
    }

    /// The draw id a shape is drawn with: `id` when it is 0 or names a
    /// stored draw, and 0 (the base draw) otherwise.
    pub fn clamp_draw_id(&self, id: u32) -> (r: u32)
        ensures
            r == clamp_spec(self@.draws.len(), id),
    {
        if id == 0 {
            return id;
        }
        if (id as usize) <= self.draws.len() {
            return id;
        }
        0
    }

    /// The stored draw named `id`, or `None` for the base draw: id 0 and
    /// any id that names no stored draw.
    pub fn draw_for(&self, id: u32) -> (r: Option<&D>)
        ensures
            r is Some <==> 1 <= id <= self@.draws.len(),
            r matches Some(d) ==> *d == self@.draws[id - 1],
    {
        if id == 0 || (id as usize) > self.draws.len() {
            None
        } else {
            Some(&self.draws[(id - 1) as usize])
        }
    }

    /// Starts a shape of `kind`, drawn with `draw_id` (clamped); returns its
    /// id, the next one handed out.
    pub fn start_drawing_shape(&mut self, kind: ShapeKind, draw_id: u32) -> (id: u32)
        requires
            old(self).wf(),
            old(self)@.next_shape_id < u32::MAX,
        ensures
            final(self).wf(),
            id == old(self)@.next_shape_id + 1,
            final(self)@ == (DrawView {
                next_shape_id: id,
                shapes: old(self)@.shapes.insert(id, final(self)@.shapes[id]),
                order: old(self)@.order.push((id, ShapeType::Shape(kind))),
                ..old(self)@
            }),
            final(self)@.shapes[id].kind == kind,
            final(self)@.shapes[id].draw_id == clamp_spec(old(self)@.draws.len(), draw_id),
            final(self)@.shapes[id].commands@.len() == 0,
            order_resolvable(old(self)@) ==> order_resolvable(final(self)@),
    {
        let ghost pre = self@;
        self.next_shape_id = self.next_shape_id + 1;
        let id = self.next_shape_id;
        let draw_id = self.clamp_draw_id(draw_id);
        let commands: Vec<C> = Vec::new();
        self.shapes.insert(id, Shape { kind, draw_id, commands });
        self.order.push((id, ShapeType::Shape(kind)));
        proof {
            assert forall|i: int| 0 <= i < self.order@.len() implies #[trigger] self.order@[i].0 <= self.next_shape_id by {
                if i < pre.order.len() {
                    assert(self.order@[i] == pre.order[i]);
                }
            }
            if order_resolvable(pre) {
                assert forall|i: int| 0 <= i < self@.order.len() implies match #[trigger] self@.order[i].1 {
                    ShapeType::Shape(kind) => self@.shapes.contains_key(self@.order[i].0) && self@.shapes[self@.order[i].0].kind == kind,
                    ShapeType::FullscreenShader => self@.shaders.contains_key(self@.order[i].0),
                } by {
                    if i < pre.order.len() {
                        assert(self@.order[i] == pre.order[i]);
                        assert(pre.order[i].0 <= pre.next_shape_id);
                        match pre.order[i].1 {
                            ShapeType::Shape(_) => {},
                            ShapeType::FullscreenShader => {},
                        }
                    }
                }
            }
        }
        id
    }

    /// Whether a shape with this id was started and not cleared.
    pub fn has_shape(&self, id: u32) -> (r: bool)
        ensures
            r == self@.shapes.contains_key(id),
    {
        self.shapes.contains(id)
    }

    /// The shape with this id.
    pub fn shape(&self, id: u32) -> (r: &Shape<C>)
        requires
            self@.shapes.contains_key(id),
        ensures
            *r == self@.shapes[id],
    {
        self.shapes.get(id).unwrap()
    }

    /// Adds a command to the shape `id`.
    pub fn store_shape_command(&mut self, id: u32, command: C)
        requires
            old(self).wf(),
            old(self)@.shapes.contains_key(id),
        ensures
            final(self).wf(),
            final(self)@.shapes.contains_key(id),
            final(self)@.shapes[id].kind == old(self)@.shapes[id].kind,
            final(self)@.shapes[id].draw_id == old(self)@.shapes[id].draw_id,
            final(self)@.shapes[id].commands@ == old(self)@.shapes[id].commands@.push(command),
            forall|k: u32| k != id ==> (#[trigger] final(self)@.shapes.contains_key(k) <==> old(self)@.shapes.contains_key(k)),
            forall|k: u32| k != id && old(self)@.shapes.contains_key(k) ==> #[trigger] final(self)@.shapes[k] == old(self)@.shapes[k],
            final(self)@.draws == old(self)@.draws,
            final(self)@.next_shape_id == old(self)@.next_shape_id,
            final(self)@.shaders == old(self)@.shaders,
            final(self)@.order == old(self)@.order,
            final(self)@.width == old(self)@.width,
            final(self)@.height == old(self)@.height,
            order_resolvable(old(self)@) ==> order_resolvable(final(self)@),
    {
        let ghost pre = self@;
        let placeholder = Shape { kind: ShapeKind::Ellipse, draw_id: 0, commands: Vec::new() };
        let mut shape = self.shapes.replace_with(id, placeholder);
        shape.commands.push(command);
        let _ = self.shapes.replace_with(id, shape);
        proof {
            assert(self@.shapes =~= pre.shapes.insert(id, shape));
            if order_resolvable(pre) {
                assert forall|i: int| 0 <= i < self@.order.len() implies match #[trigger] self@.order[i].1 {
                    ShapeType::Shape(kind) => self@.shapes.contains_key(self@.order[i].0) && self@.shapes[self@.order[i].0].kind == kind,
                    ShapeType::FullscreenShader => self@.shaders.contains_key(self@.order[i].0),
                } by {
                    assert(self@.order[i] == pre.order[i]);
                    match pre.order[i].1 {
                        ShapeType::Shape(_) => {},
                        ShapeType::FullscreenShader => {},
                    }
                }
            }
        }
    }

    /// Queues a pass of the fullscreen shader `shader_id`, drawn with
    /// `draw_id` (clamped), and marks the shader, if loaded, as drawn in
    /// this update. The pass takes the current shape id without advancing
    /// it, so a second pass queued before another shape replaces the first
    /// one's draw and shader (both order entries then draw the second).
    pub fn start_drawing_fullscreen_shader(&mut self, draw_id: u32, shader_id: u32)
        requires
            old(self).wf(),
            old(self)@.fullscreen_shaders.contains_key(shader_id),
        ensures
            final(self).wf(),
            final(self)@ == (DrawView {
                shaders: old(self)@.shaders.insert(
                    old(self)@.next_shape_id,
                    (clamp_spec(old(self)@.draws.len(), draw_id), shader_id),
                ),
                order: old(self)@.order.push((old(self)@.next_shape_id, ShapeType::FullscreenShader)),
                fullscreen_shaders: old(self)@.fullscreen_shaders.insert(
                    shader_id,
                    with_drawn(old(self)@.fullscreen_shaders[shader_id], true),
                ),
                ..old(self)@
            }),
            order_resolvable(old(self)@) ==> order_resolvable(final(self)@),
    {
        let ghost pre = self@;
        let draw_id = self.clamp_draw_id(draw_id);
        self.shaders.insert(self.next_shape_id, (draw_id, shader_id));
        self.fullscreen_shaders.mark_drawn(shader_id);
        self.order.push((self.next_shape_id, ShapeType::FullscreenShader));
        proof {
            assert forall|i: int| 0 <= i < self.order@.len() implies #[trigger] self.order@[i].0 <= self.next_shape_id by {
                if i < pre.order.len() {
                    assert(self.order@[i] == pre.order[i]);
                }
            }
            if order_resolvable(pre) {
                assert forall|i: int| 0 <= i < self@.order.len() implies match #[trigger] self@.order[i].1 {
                    ShapeType::Shape(kind) => self@.shapes.contains_key(self@.order[i].0) && self@.shapes[self@.order[i].0].kind == kind,
                    ShapeType::FullscreenShader => self@.shaders.contains_key(self@.order[i].0),
                } by {
                    if i < pre.order.len() {
                        assert(self@.order[i] == pre.order[i]);
                        match pre.order[i].1 {
                            ShapeType::Shape(_) => {},
                            ShapeType::FullscreenShader => {},
                        }
                    }
                }
            }
        }
    }

    /// What to draw, in order: for each entry of the drawing order, the draw
    /// it uses and the shape or shader pass it draws.
    pub fn frame(&self) -> (items: Vec<FrameItem>)
        requires
            self.wf(),
            order_resolvable(self@),
        ensures
            items@.len() == self@.order.len(),
            forall|i: int| 0 <= i < items@.len() ==> #[trigger] items@[i] == frame_item(self@, self@.order[i]),
    {
        let mut items: Vec<FrameItem> = Vec::new();
        let mut i: usize = 0;
        while i < self.order.len()
            invariant
                self.wf(),
                order_resolvable(self@),
                i <= self@.order.len(),
                items@.len() == i,
                forall|j: int| 0 <= j < i ==> #[trigger] items@[j] == frame_item(self@, self@.order[j]),
            decreases self@.order.len() - i,
        {
            let (key, ty) = self.order[i];
            proof {
                assert(self@.order[i as int] == (key, ty));
            }
            let item = match ty {
                ShapeType::Shape(_) => {
                    let s = self.shape(key);
                    FrameItem { draw_id: s.draw_id, content: FrameContent::Shape(key) }
                },
                ShapeType::FullscreenShader => {
                    let (d, sh) = match self.shaders.get(key) {
                        Some(p) => *p,
                        None => {
                            proof {
                                assert(false);
                            }
                            (0, 0)
                        },
                    };
                    proof {
                        assert(self.shaders@.contains_key(key));
                    }
                    let loaded = self.fullscreen_shaders.is_loaded(sh);
                    FrameItem { draw_id: d, content: FrameContent::FullscreenShader { id: sh, loaded } }
                },
            };
            items.push(item);
            i = i + 1;
        }
        items
    }

    /// Forgets the shapes and shader passes once they were drawn; the
    /// drawing order stays until the next `reset`.
    pub fn clear_shape_commands(&mut self)
        requires
            old(self).wf(),
        ensures
            final(self).wf(),
            final(self)@ == (DrawView {
                shapes: Map::<u32, Shape<C>>::empty(),
                shaders: Map::<u32, (u32, u32)>::empty(),
                ..old(self)@
            }),
    {
        self.shapes.clear();
        self.shaders.clear();
    }

    /// Starts a new update: no stored draws, no drawing order, shape ids
    /// counted from 1 again, no fullscreen shader drawn.
    pub fn reset(&mut self)
        requires
            old(self).wf(),
        ensures
            final(self).wf(),
            final(self)@ == (DrawView {
                draws: Seq::<D>::empty(),
                next_shape_id: 0,
                order: Seq::<(u32, ShapeType)>::empty(),
                fullscreen_shaders: old(self)@.fullscreen_shaders.map_values(|s: ShaderView| with_drawn(s, false)),
                ..old(self)@
            }),
            order_resolvable(final(self)@),
    {
        self.draws.clear();
        self.next_shape_id = 0;
        self.order.clear();
        self.fullscreen_shaders.stop_drawing_all();
        proof {
            assert(self@.draws =~= Seq::<D>::empty());
            assert(self@.order =~= Seq::<(u32, ShapeType)>::empty());
        }
    }

    /// Whether the fullscreen shader `id` was requested.
    pub fn has_fullscreen_shader(&self, id: u32) -> (r: bool)
        ensures
            r == self@.fullscreen_shaders.contains_key(id),
    {
        self.fullscreen_shaders.contains(id)
    }

    /// Requests the fullscreen shader read from `path`, whose text is
    /// `source`. WGSL that does not parse is refused and nothing changes;
    /// otherwise the shader is recorded as being built (replacing any
    /// earlier one with the same id) and the request to build it, at the
    /// sketch's current size, is returned. Its id derives from the path.
    pub fn load_fullscreen_shader(&mut self, path: &str, source: String) -> (r: Result<ShaderLoadRequest, ShaderError>)
        requires
            old(self).wf(),
        ensures
            final(self).wf(),
            wgsl_types(source@) matches Err(m) ==> {
                &&& r matches Err(ShaderError::InvalidSyntax(e)) && e@ == m
                &&& final(self)@ == old(self)@
            },
            wgsl_types(source@) is Ok ==> {
                &&& r matches Ok(req) && {
                    &&& req.id == default_hash_of_str(path@) as u32
                    &&& req.source@ == source@
                    &&& req.width == old(self)@.width
                    &&& req.height == old(self)@.height
                    &&& final(self)@ == (DrawView {
                        fullscreen_shaders: old(self)@.fullscreen_shaders.insert(req.id, ShaderView::Unloaded),
                        ..old(self)@
                    })
                }
            },
    {
        let id = FullscreenShaderId::new(path);
        match parse_wgsl(source.as_str()) {
            Err(m) => Err(ShaderError::InvalidSyntax(m)),
            Ok(_) => {
                self.fullscreen_shaders.insert_unloaded(id.0);
                Ok(ShaderLoadRequest { id: id.0, source, width: self.width, height: self.height })
            },
        }
    }

    /// Records that the fullscreen shader `id` was built with these
    /// uniforms; it counts as drawn until the next update starts.
    pub fn fullscreen_shader_loaded(&mut self, id: u32, uniforms: UniformBuffer)
        requires
            old(self).wf(),
            uniforms.wf(),
        ensures
            final(self).wf(),
            final(self)@ == (DrawView {
                fullscreen_shaders: old(self)@.fullscreen_shaders.insert(
                    id,
                    ShaderView::Loaded { uniforms: uniforms@, is_being_drawn: true },
                ),
                ..old(self)@
            }),
    {
        self.fullscreen_shaders.insert_loaded(id, uniforms);
    }

    /// Whether `set_fullscreen_shader_uniform` can take `key` for the
    /// shader `id`: the shader is still being built, or has no such uniform,
    /// or the uniform takes 4 bytes within its buffer.
    pub fn can_set_fullscreen_shader_uniform(&self, id: u32, key: &str) -> (r: bool)
        requires
            self.wf(),
            self@.fullscreen_shaders.contains_key(id),
        ensures
            r == uniform_settable(self@.fullscreen_shaders[id], key@),
    {
        self.fullscreen_shaders.can_set_uniform(id, key)
    }

    /// Sets the uniform `key` of the fullscreen shader `id` to the 4 bytes
    /// of a value. A shader still being built ignores it; a loaded one
    /// without such a uniform refuses it.
    pub fn set_fullscreen_shader_uniform(&mut self, id: u32, key: &str, value: [u8; 4]) -> (r: Result<(), ShaderError>)
        requires
            old(self).wf(),
            old(self)@.fullscreen_shaders.contains_key(id),
            uniform_settable(old(self)@.fullscreen_shaders[id], key@),
        ensures
            final(self).wf(),
            old(self)@.fullscreen_shaders[id] is Unloaded ==> r is Ok && final(self)@ == old(self)@,
            old(self)@.fullscreen_shaders[id] matches ShaderView::Loaded { uniforms, is_being_drawn } ==> {
                &&& !uniforms.uniforms.contains_key(key@) ==> {
                    &&& r matches Err(ShaderError::UniformNotFound(k)) && k@ == key@
                    &&& final(self)@ == old(self)@
                }
                &&& uniforms.uniforms.contains_key(key@) ==> {
                    &&& r is Ok
                    &&& final(self)@ == (DrawView {
                        fullscreen_shaders: old(self)@.fullscreen_shaders.insert(id, ShaderView::Loaded {
                            uniforms: UniformBufferView {
                                bytes: write_bytes(uniforms.bytes, uniforms.uniforms[key@].offset as int, value@),
                                changed: true,
                                ..uniforms
                            },
                            is_being_drawn,
                        }),
                        ..old(self)@
                    })
                }
            },
    {
        self.fullscreen_shaders.set_uniform(id, key, value)
    }

    /// The loaded fullscreen shaders drawn in this update, each once.
    pub fn fullscreen_shaders_to_render(&self) -> (r: Vec<u32>)
        ensures
            r@.no_duplicates(),
            forall|k: u32| #[trigger] r@.contains(k) <==> (
                self@.fullscreen_shaders.contains_key(k) && is_drawn(self@.fullscreen_shaders[k])),
    {
        self.fullscreen_shaders.drawn_ids()
    }

    /// The uniform bytes of the fullscreen shader `id` to upload before it
    /// is rendered, when they changed since the last upload.
    pub fn take_uniform_upload(&mut self, id: u32) -> (r: Option<Vec<u8>>)
        requires
            old(self).wf(),
        ensures
            final(self).wf(),
            has_pending_upload(old(self)@.fullscreen_shaders, id) ==> {
                let old_shader = old(self)@.fullscreen_shaders[id];
                &&& r matches Some(b) && b@ == old_shader->uniforms.bytes
                &&& final(self)@ == (DrawView {
                    fullscreen_shaders: old(self)@.fullscreen_shaders.insert(id, ShaderView::Loaded {
                        uniforms: UniformBufferView { changed: false, ..old_shader->uniforms },
                        is_being_drawn: old_shader->is_being_drawn,
                    }),
                    ..old(self)@
                })
            },
            !has_pending_upload(old(self)@.fullscreen_shaders, id) ==> r is None && final(self)@ == old(self)@,
    {
        self.fullscreen_shaders.take_upload(id)
    }
}

} // verus!
