//! Vertex pipeline and polygon assembly.
//!
//! Vertices stream in via `VTX_*` commands. Each vertex's position is
//! transformed by the clip matrix and tagged with the current color, texture
//! coordinates and polygon attributes. The active `BEGIN_VTXS` primitive type
//! decides when a polygon is assembled from the accumulated vertices.
//!
//! This module produces clip-space polygons. Clipping and the viewport transform
//! finish the geometry stage.

use vstd::prelude::*;
use crate::fixed;
use super::matrix;
use super::matrix::{Matrix, ONE};
use super::stacks::{MatrixStacks, StacksState};

verus! {

/// Primitive type from `BEGIN_VTXS`.
#[derive(Debug, Clone, Copy, PartialEq, Eq, Structural)]
pub enum PrimitiveType {
    /// Every 3 vertices are a triangle.
    Triangles,
    /// Every 4 vertices are a quad.
    Quads,
    /// 0,1,2 then 1,2,3 then 2,3,4 ...
    TriangleStrip,
    /// 0,1,3,2 then 2,3,5,4 then ...
    QuadStrip,
}

/// The primitive type that the low two bits of a parameter select.
pub open spec fn primitive_of(b: u32) -> PrimitiveType {
    if b % 4 == 0 {
        PrimitiveType::Triangles
    } else if b % 4 == 1 {
        PrimitiveType::Quads
    } else if b % 4 == 2 {
        PrimitiveType::TriangleStrip
    } else {
        PrimitiveType::QuadStrip
    }
}

impl PrimitiveType {
    /// Whether connected polygons share vertices.
    pub open spec fn strip(self) -> bool {
        self == PrimitiveType::TriangleStrip || self == PrimitiveType::QuadStrip
    }

    /// Vertices in one polygon.
    pub open spec fn corners(self) -> int {
        match self {
            PrimitiveType::Triangles | PrimitiveType::TriangleStrip => 3,
            PrimitiveType::Quads | PrimitiveType::QuadStrip => 4,
        }
    }

    pub fn from_bits(b: u32) -> (r: Self)
        ensures
            r == primitive_of(b),
    {
        match b % 4 {
            0 => PrimitiveType::Triangles,
            1 => PrimitiveType::Quads,
            2 => PrimitiveType::TriangleStrip,
            _ => PrimitiveType::QuadStrip,
        }
    }

    /// Number of vertices in one polygon of this primitive.
    pub fn vertices_per_polygon(self) -> (r: usize)
        ensures
            r == self.corners(),
    {
        match self {
            PrimitiveType::Triangles | PrimitiveType::TriangleStrip => 3,
            PrimitiveType::Quads | PrimitiveType::QuadStrip => 4,
        }
    }

    fn is_strip(self) -> (r: bool)
        ensures
            r == self.strip(),
    {
        match self {
            PrimitiveType::TriangleStrip | PrimitiveType::QuadStrip => true,
            _ => false,
        }
    }
}

/// One vertex in clip space, with the attributes carried alongside.
#[derive(Debug, Clone, Copy)]
pub struct Vertex {
    /// Clip-space `(x, y, z, w)`. Each component is 1.19.12 fixed-point.
    pub clip: [i32; 4],
    /// Color (5 bits per RGB channel, packed BGR555). Set by lighting or `COLOR`.
    pub color: u16,
    /// Texture coordinates (S, T) in 1.11.4 fixed-point.
    pub tex: [i16; 2],
}

impl Vertex {
    pub fn new(clip: [i32; 4], color: u16, tex: [i16; 2]) -> (r: Self)
        ensures
            r == (Vertex { clip, color, tex }),
    {
        Vertex { clip, color, tex }
    }
}

/// One assembled polygon in clip space.
#[derive(Debug, Clone)]
pub struct Polygon {
    pub vertices: Vec<Vertex>,
    pub attr: u32,
    pub tex_image_param: u32,
    pub palette_base: u16,
    /// True when a negative signed screen-space area is the polygon's front
    /// side. Triangle strips invert this for every second triangle.
    pub front_area_negative: bool,
}

/// A polygon as contracts speak of it.
#[verifier::ext_equal]
pub struct PolygonState {
    pub vertices: Seq<Vertex>,
    pub attr: u32,
    pub tex_image_param: u32,
    pub palette_base: u16,
    pub front_area_negative: bool,
}

impl View for Polygon {
    type V = PolygonState;

    open spec fn view(&self) -> PolygonState {
        PolygonState {
            vertices: self.vertices@,
            attr: self.attr,
            tex_image_param: self.tex_image_param,
            palette_base: self.palette_base,
            front_area_negative: self.front_area_negative,
        }
    }
}

/// Vertex pipeline state.
#[derive(Debug, Clone)]
pub struct VertexState {
    pub primitive: Option<PrimitiveType>,
    /// True while a vertex list is open. A new BEGIN_VTXS or SWAP_BUFFERS ends
    /// it; END_VTXS is a no-op.
    pub list_active: bool,
    /// Last submitted vertex position (the base of `VTX_DIFF`).
    pub last_pos: [i32; 3],
    /// Current per-vertex color, BGR555.
    pub current_color: u16,
    /// Current texture coordinates (S, T) in 1.11.4 fixed-point.
    pub current_tex: [i16; 2],
    /// Most recent raw TEXCOORD values, before the texture matrix.
    pub raw_tex: [i16; 2],
    /// `POLYGON_ATTR`, frozen into each polygon at assembly time.
    pub polygon_attr: u32,
    /// Attributes for the next vertex list: writes are deferred until the next
    /// BEGIN.
    pub pending_polygon_attr: Option<u32>,
    /// `TEXIMAGE_PARAM`.
    pub tex_image_param: u32,
    /// `PLTT_BASE`: texture palette base.
    pub palette_base: u16,
    /// Texture state latched at BEGIN_VTXS for strips, whose connected polygons
    /// keep the list-start texture binding.
    pub strip_tex_image_param: u32,
    pub strip_palette_base: u16,
    /// Vertices accumulated for the current primitive.
    pub vertex_buffer: Vec<Vertex>,
    /// Assembled polygons, drained by the engine.
    pub polygon_buffer: Vec<Polygon>,
}

/// The vertex pipeline as contracts speak of it.
#[verifier::ext_equal]
pub struct VertexView {
    pub primitive: Option<PrimitiveType>,
    pub list_active: bool,
    pub last_pos: [i32; 3],
    pub current_color: u16,
    pub current_tex: [i16; 2],
    pub raw_tex: [i16; 2],
    pub polygon_attr: u32,
    pub pending_polygon_attr: Option<u32>,
    pub tex_image_param: u32,
    pub palette_base: u16,
    pub strip_tex_image_param: u32,
    pub strip_palette_base: u16,
    pub vertex_buffer: Seq<Vertex>,
    pub polygon_buffer: Seq<PolygonState>,
}

/// The states of a sequence of polygons.
pub open spec fn states_of(polys: Seq<Polygon>) -> Seq<PolygonState> {
    Seq::new(polys.len(), |i: int| polys[i]@)
}

impl View for VertexState {
    type V = VertexView;

    open spec fn view(&self) -> VertexView {
        VertexView {
            primitive: self.primitive,
            list_active: self.list_active,
            last_pos: self.last_pos,
            current_color: self.current_color,
            current_tex: self.current_tex,
            raw_tex: self.raw_tex,
            polygon_attr: self.polygon_attr,
            pending_polygon_attr: self.pending_polygon_attr,
            tex_image_param: self.tex_image_param,
            palette_base: self.palette_base,
            strip_tex_image_param: self.strip_tex_image_param,
            strip_palette_base: self.strip_palette_base,
            vertex_buffer: self.vertex_buffer@,
            polygon_buffer: states_of(self.polygon_buffer@),
        }
    }
}

/// Texture coordinates from TEXCOORD through the texture matrix; the constant
/// rows count 1/16.
pub open spec fn tex_from_texcoord(tex: [i16; 2], m: Matrix) -> [i16; 2] {
    [
        fixed::wrap_i16((tex[0] * m.m[0] + tex[1] * m.m[4] + m.m[8] + m.m[12]) / 4096),
        fixed::wrap_i16((tex[0] * m.m[1] + tex[1] * m.m[5] + m.m[9] + m.m[13]) / 4096),
    ]
}

/// Texture coordinates from three components through the texture matrix, scaled
/// down by `scale` and added to the raw coordinates.
pub open spec fn tex_from_source(v: [i32; 3], tex: [i16; 2], m: Matrix, scale: int) -> [i16; 2] {
    [
        fixed::wrap_i16((v[0] * m.m[0] + v[1] * m.m[4] + v[2] * m.m[8]) / scale + tex[0]),
        fixed::wrap_i16((v[0] * m.m[1] + v[1] * m.m[5] + v[2] * m.m[9]) / scale + tex[1]),
    ]
}

impl VertexView {
    /// The texture parameters in force: those latched at BEGIN in a strip.
    pub open spec fn effective_tex(self) -> u32 {
        if self.list_active && self.primitive is Some && (self.primitive->0).strip() {
            self.strip_tex_image_param
        } else {
            self.tex_image_param
        }
    }

    /// The texture coordinate transform mode in force.
    pub open spec fn tex_mode(self) -> int {
        self.effective_tex() as int / 0x4000_0000
    }

    /// After `BEGIN_VTXS`.
    pub open spec fn begun(self, primitive: PrimitiveType) -> VertexView {
        VertexView {
            polygon_attr: match self.pending_polygon_attr {
                Some(attr) => attr,
                None => self.polygon_attr,
            },
            pending_polygon_attr: None,
            primitive: Some(primitive),
            list_active: true,
            vertex_buffer: Seq::empty(),
            strip_tex_image_param: self.tex_image_param,
            strip_palette_base: self.palette_base,
            ..self
        }
    }

    /// After the vertex list is closed.
    pub open spec fn ended(self) -> VertexView {
        VertexView {
            primitive: None,
            list_active: false,
            vertex_buffer: Seq::empty(),
            ..self
        }
    }

    /// Whether the open list holds vertices that have not completed a polygon.
    pub open spec fn incomplete(self) -> bool {
        let n = self.vertex_buffer.len() as int;
        self.list_active && match self.primitive {
            Some(PrimitiveType::Triangles) => n % 3 != 0,
            Some(PrimitiveType::Quads) => n % 4 != 0,
            Some(PrimitiveType::TriangleStrip) => 0 < n < 3,
            Some(PrimitiveType::QuadStrip) => 0 < n < 4 || n % 2 != 0,
            None => false,
        }
    }

    /// After `TEXCOORD`.
    pub open spec fn with_texcoord(self, param: u32, texture: Matrix) -> VertexView {
        let raw = [fixed::low_half(param), fixed::high_half(param)];
        VertexView {
            raw_tex: raw,
            current_tex: if self.tex_mode() == 1 {
                tex_from_texcoord(raw, texture)
            } else {
                raw
            },
            ..self
        }
    }

    /// After `NORMAL`, as far as texture coordinates go.
    pub open spec fn with_normal_tex(self, normal: [i32; 3], texture: Matrix) -> VertexView {
        if self.tex_mode() == 2 {
            VertexView {
                current_tex: tex_from_source(normal, self.raw_tex, texture, 0x2_0000),
                ..self
            }
        } else {
            self
        }
    }

    /// The clip-space vertex of an object-space position.
    pub open spec fn vertex_at(self, pos: [i32; 3], stacks: StacksState) -> Vertex {
        Vertex {
            clip: matrix::transformed([pos[0], pos[1], pos[2], ONE], stacks.clip()),
            color: self.current_color,
            tex: if self.tex_mode() == 3 {
                tex_from_source(pos, self.raw_tex, stacks.texture, 0x10_0000)
            } else {
                self.current_tex
            },
        }
    }

    /// A polygon of the current list.
    pub open spec fn polygon(
        self,
        vertices: Seq<Vertex>,
        primitive: PrimitiveType,
        front_area_negative: bool,
    ) -> PolygonState {
        PolygonState {
            vertices,
            attr: self.polygon_attr,
            tex_image_param: if primitive.strip() {
                self.strip_tex_image_param
            } else {
                self.tex_image_param
            },
            palette_base: if primitive.strip() {
                self.strip_palette_base
            } else {
                self.palette_base
            },
            front_area_negative,
        }
    }

    /// The polygon assembled where the accumulated vertices complete one.
    pub open spec fn assembled(self, primitive: PrimitiveType) -> VertexView {
        let vs = self.vertex_buffer;
        let n = vs.len() as int;
        match primitive {
            PrimitiveType::Triangles | PrimitiveType::Quads => if n == primitive.corners() {
                VertexView {
                    vertex_buffer: Seq::empty(),
                    polygon_buffer: self.polygon_buffer.push(self.polygon(vs, primitive, true)),
                    ..self
                }
            } else {
                self
            },
            PrimitiveType::TriangleStrip => if n >= 3 {
                VertexView {
                    polygon_buffer: self.polygon_buffer.push(
                        self.polygon(
                            seq![vs[n - 3], vs[n - 2], vs[n - 1]],
                            primitive,
                            (n - 3) % 2 == 0,
                        ),
                    ),
                    ..self
                }
            } else {
                self
            },
            PrimitiveType::QuadStrip => if n >= 4 && n % 2 == 0 {
                VertexView {
                    polygon_buffer: self.polygon_buffer.push(
                        self.polygon(
                            seq![vs[n - 4], vs[n - 3], vs[n - 1], vs[n - 2]],
                            primitive,
                            true,
                        ),
                    ),
                    ..self
                }
            } else {
                self
            },
        }
    }

    /// After a vertex position is submitted; outside a list it is ignored.
    pub open spec fn submitted(self, pos: [i32; 3], stacks: StacksState) -> VertexView {
        match self.primitive {
            None => self,
            Some(primitive) => VertexView {
                last_pos: pos,
                vertex_buffer: self.vertex_buffer.push(self.vertex_at(pos, stacks)),
                ..self
            }.assembled(primitive),
        }
    }

    /// After a sequence of positions is submitted.
    pub open spec fn streamed(self, positions: Seq<[i32; 3]>, stacks: StacksState) -> VertexView
        decreases positions.len(),
    {
        if positions.len() == 0 {
            self
        } else {
            self.streamed(positions.drop_last(), stacks).submitted(positions.last(), stacks)
        }
    }
}

/// The pipeline at power-on.
pub open spec fn idle() -> VertexView {
    VertexView {
        primitive: None,
        list_active: false,
        last_pos: [0, 0, 0],
        current_color: 0,
        current_tex: [0, 0],
        raw_tex: [0, 0],
        polygon_attr: 0,
        pending_polygon_attr: None,
        tex_image_param: 0,
        palette_base: 0,
        strip_tex_image_param: 0,
        strip_palette_base: 0,
        vertex_buffer: Seq::empty(),
        polygon_buffer: Seq::empty(),
    }
}

/// Polygons that `n` vertices of a list make.
pub open spec fn polygons_made(primitive: PrimitiveType, n: int) -> int {
    match primitive {
        PrimitiveType::Triangles => n / 3,
        PrimitiveType::Quads => n / 4,
        PrimitiveType::TriangleStrip => if n >= 3 { n - 2 } else { 0 },
        PrimitiveType::QuadStrip => if n >= 4 { n / 2 - 1 } else { 0 },
    }
}

/// A list of `n` vertices makes `n / 3` triangles or `n / 4` quads, or as a
/// strip `n - 2` triangles or `n / 2 - 1` quads; every polygon has the corners
/// of its primitive.
pub proof fn law_polygon_count(
    s: VertexView,
    primitive: PrimitiveType,
    positions: Seq<[i32; 3]>,
    stacks: StacksState,
)
    ensures
        ({
            let after = s.begun(primitive).streamed(positions, stacks);
            let n = positions.len() as int;
            &&& after.polygon_buffer.len() == s.polygon_buffer.len() + polygons_made(primitive, n)
            &&& forall|i: int|
                s.polygon_buffer.len() <= i < after.polygon_buffer.len() ==> (
                #[trigger] after.polygon_buffer[i]).vertices.len() == primitive.corners()
            &&& after.primitive == Some(primitive)
            &&& after.vertex_buffer.len() == match primitive {
                PrimitiveType::Triangles => n % 3,
                PrimitiveType::Quads => n % 4,
                _ => n,
            }
        }),
    decreases positions.len(),
{
    if positions.len() > 0 {
        law_polygon_count(s, primitive, positions.drop_last(), stacks);
        let before = s.begun(primitive).streamed(positions.drop_last(), stacks);
        let pushed = VertexView {
            last_pos: positions.last(),
            vertex_buffer: before.vertex_buffer.push(before.vertex_at(positions.last(), stacks)),
            ..before
        };
        let after = pushed.assembled(primitive);
        assert(s.begun(primitive).streamed(positions, stacks) == after);
        assert(after.polygon_buffer.len() == before.polygon_buffer.len() || after.polygon_buffer
            == before.polygon_buffer.push(after.polygon_buffer.last()));
    }
}

/// `POLYGON_ATTR` takes effect at the next `BEGIN_VTXS` and not before: the
/// attributes of polygons assembled in the open list stay those it began with.
pub proof fn law_polygon_attr_deferred(
    s: VertexView,
    attr: u32,
    primitive: PrimitiveType,
    pos: [i32; 3],
    stacks: StacksState,
)
    ensures
        ({
            let set = VertexView { pending_polygon_attr: Some(attr), ..s };
            &&& set.submitted(pos, stacks).polygon_attr == s.polygon_attr
            &&& set.submitted(pos, stacks).polygon_buffer == s.submitted(pos, stacks).polygon_buffer
            &&& set.begun(primitive).polygon_attr == attr
        }),
{
    let set = VertexView { pending_polygon_attr: Some(attr), ..s };
    assert(set.submitted(pos, stacks).polygon_buffer =~= s.submitted(pos, stacks).polygon_buffer);
}

/// Within a strip, texture parameter writes do not reach the polygons of the
/// strip.
pub proof fn law_strip_keeps_texture(
    s: VertexView,
    tex_image_param: u32,
    palette_base: u16,
    pos: [i32; 3],
    stacks: StacksState,
)
    requires
        s.list_active,
        s.primitive is Some,
        (s.primitive->0).strip(),
    ensures
        ({
            let changed = VertexView { tex_image_param, palette_base, ..s };
            changed.submitted(pos, stacks).polygon_buffer == s.submitted(pos, stacks).polygon_buffer
        }),
{
    let changed = VertexView { tex_image_param, palette_base, ..s };
    assert(changed.submitted(pos, stacks).polygon_buffer =~= s.submitted(
        pos,
        stacks,
    ).polygon_buffer);
}

impl Default for VertexState {
    fn default() -> (r: Self)
        ensures
            r@ == idle(),
    {
        let r = VertexState {
            primitive: None,
            list_active: false,
            last_pos: [0, 0, 0],
            current_color: 0,
            current_tex: [0, 0],
            raw_tex: [0, 0],
            polygon_attr: 0,
            pending_polygon_attr: None,
            tex_image_param: 0,
            palette_base: 0,
            strip_tex_image_param: 0,
            strip_palette_base: 0,
            vertex_buffer: Vec::new(),
            polygon_buffer: Vec::new(),
        };
        assert(r@ =~= idle());
        r
    }
}

impl VertexState {
    pub fn new() -> (r: Self)
        ensures
            r@ == idle(),
    {
        Self::default()
    }

    /// `BEGIN_VTXS`: start a new primitive group.
    pub fn begin(&mut self, primitive: PrimitiveType)
        ensures
            final(self)@ == old(self)@.begun(primitive),
    {
        if let Some(attr) = self.pending_polygon_attr {
            self.polygon_attr = attr;
        }
        self.pending_polygon_attr = None;
        self.primitive = Some(primitive);
        self.list_active = true;
        self.vertex_buffer.clear();
        self.strip_tex_image_param = self.tex_image_param;
        self.strip_palette_base = self.palette_base;
    }

    /// `END_VTXS`: a no-op. Vertex lists are ended by the next `BEGIN_VTXS` or
    /// by `SWAP_BUFFERS`.
    pub fn end(&mut self)
        ensures
            *final(self) == *old(self),
    {
    }

    /// Close the active list, as buffer swaps do.
    pub fn force_end(&mut self)
        ensures
            final(self)@ == old(self)@.ended(),
    {
        self.primitive = None;
        self.list_active = false;
        self.vertex_buffer.clear();
    }

    /// True when the active list contains vertices that have not completed a
    /// polygon. SWAP_BUFFERS during that state locks the 3D hardware.
    pub fn has_incomplete_polygon_list(&self) -> (r: bool)
        ensures
            r == self@.incomplete(),
    {
        if !self.list_active {
            return false;
        }
        let len: usize = self.vertex_buffer.len();
        match self.primitive {
            Some(PrimitiveType::Triangles) => len % 3 != 0,
            Some(PrimitiveType::Quads) => len % 4 != 0,
            Some(PrimitiveType::TriangleStrip) => len != 0 && len < 3,
            Some(PrimitiveType::QuadStrip) => (len > 0 && len < 4) || (len >= 4 && len % 2 != 0),
            None => false,
        }
    }

    /// `COLOR`: BGR555 from the parameter word's low 15 bits.
    pub fn set_color(&mut self, param: u32)
        ensures
            final(self)@ == (VertexView {
                current_color: (param as int % 0x8000) as u16,
                ..old(self)@
            }),
    {
        self.current_color = (param % 0x8000) as u16;
    }

    /// `TEXCOORD`: two signed 16-bit values, packed in one word.
    pub fn set_texcoord(&mut self, param: u32, stacks: &MatrixStacks)
        ensures
            final(self)@ == old(self)@.with_texcoord(param, stacks.texture),
    {
        let ghost start = self@;
        let (s, t): (i16, i16) = fixed::signed_halves(param);
        self.raw_tex = [s, t];
        self.current_tex = match self.texcoord_transform_mode() {
            1 => transform_texcoord_source([s, t], &stacks.texture),
            // Modes 2 and 3 are evaluated by NORMAL and VTX commands.
            _ => [s, t],
        };
        assert(self@ =~= start.with_texcoord(param, stacks.texture));
    }

    /// `POLYGON_ATTR`: applies to all polygons after the next `BEGIN_VTXS`.
    pub fn set_polygon_attr(&mut self, param: u32)
        ensures
            final(self)@ == (VertexView { pending_polygon_attr: Some(param), ..old(self)@ }),
    {
        self.pending_polygon_attr = Some(param);
    }

    /// `TEXIMAGE_PARAM`.
    pub fn set_tex_image_param(&mut self, param: u32)
        ensures
            final(self)@ == (VertexView { tex_image_param: param, ..old(self)@ }),
    {
        self.tex_image_param = param;
    }

    /// `PLTT_BASE`: texture palette base address (low 13 bits).
    pub fn set_palette_base(&mut self, param: u32)
        ensures
            final(self)@ == (VertexView {
                palette_base: (param as int % 0x2000) as u16,
                ..old(self)@
            }),
    {
        self.palette_base = (param % 0x2000) as u16;
    }

    /// Process a decoded vertex position (in object space). Transforms by the
    /// clip matrix and appends to the vertex buffer; emits a polygon when enough
    /// vertices accumulate for the current primitive type.
    pub fn submit_vertex(&mut self, pos_obj: [i32; 3], stacks: &MatrixStacks)
        ensures
            final(self)@ == old(self)@.submitted(pos_obj, stacks@),
    {
        let ghost start = self@;
        let primitive: PrimitiveType = match self.primitive {
            Some(p) => p,
            None => {
                return ;
            },
        };
        self.last_pos = pos_obj;

        let clip_mat: Matrix = stacks.clip_matrix();
        let clip: [i32; 4] = clip_mat.mul_vec4([pos_obj[0], pos_obj[1], pos_obj[2], ONE]);
        let tex: [i16; 2] = if self.texcoord_transform_mode() == 3 {
            transform_vertex_source(pos_obj, self.raw_tex, &stacks.texture)
        } else {
            self.current_tex
        };
        let v: Vertex = Vertex::new(clip, self.current_color, tex);
        assert(v == start.vertex_at(pos_obj, stacks@));
        self.vertex_buffer.push(v);
        let ghost pushed = self@;
        assert(pushed =~= (VertexView {
            last_pos: pos_obj,
            vertex_buffer: start.vertex_buffer.push(v),
            ..start
        }));

        let n: usize = primitive.vertices_per_polygon();
        let len: usize = self.vertex_buffer.len();
        match primitive {
            PrimitiveType::Triangles | PrimitiveType::Quads => {
                if len == n {
                    let mut verts: Vec<Vertex> = Vec::new();
                    std::mem::swap(&mut verts, &mut self.vertex_buffer);
                    self.push_polygon(verts, primitive, true);
                    assert(self@ =~= pushed.assembled(primitive));
                }
            },
            PrimitiveType::TriangleStrip => {
                if len >= 3 {
                    // Strips keep natural connected order: 0,1,2 then 1,2,3 then
                    // 2,3,4. Every second triangle has the opposite winding.
                    let mut verts: Vec<Vertex> = Vec::new();
                    verts.push(self.vertex_buffer[len - 3]);
                    verts.push(self.vertex_buffer[len - 2]);
                    verts.push(self.vertex_buffer[len - 1]);
                    assert(verts@ =~= seq![
                        pushed.vertex_buffer[len - 3],
                        pushed.vertex_buffer[len - 2],
                        pushed.vertex_buffer[len - 1],
                    ]);
                    self.push_polygon(verts, primitive, (len - 3) % 2 == 0);
                    assert(self@ =~= pushed.assembled(primitive));
                }
            },
            PrimitiveType::QuadStrip => {
                // Quads in a strip share 2 vertices with the previous quad:
                // 0,1,3,2 then 2,3,5,4.
                if len >= 4 && len % 2 == 0 {
                    let mut verts: Vec<Vertex> = Vec::new();
                    verts.push(self.vertex_buffer[len - 4]);
                    verts.push(self.vertex_buffer[len - 3]);
                    verts.push(self.vertex_buffer[len - 1]);
                    verts.push(self.vertex_buffer[len - 2]);
                    assert(verts@ =~= seq![
                        pushed.vertex_buffer[len - 4],
                        pushed.vertex_buffer[len - 3],
                        pushed.vertex_buffer[len - 1],
                        pushed.vertex_buffer[len - 2],
                    ]);
                    self.push_polygon(verts, primitive, true);
                    assert(self@ =~= pushed.assembled(primitive));
                }
            },
        }
    }

    fn push_polygon(&mut self, verts: Vec<Vertex>, primitive: PrimitiveType, front: bool)
        ensures
            final(self)@ == (VertexView {
                polygon_buffer: old(self)@.polygon_buffer.push(
                    old(self)@.polygon(verts@, primitive, front),
                ),
                ..old(self)@
            }),
    {
        let ghost start = self@;
        let poly: Polygon = make_polygon(verts, self, primitive, front);
        self.polygon_buffer.push(poly);
        assert(self@.polygon_buffer =~= start.polygon_buffer.push(
            start.polygon(verts@, primitive, front),
        ));
    }

    /// Apply texture-coordinate transform mode 2. The normal components are raw
    /// 1.0.9 signed values from the NORMAL command.
    pub fn apply_normal_texcoord_transform(&mut self, normal: [i32; 3], stacks: &MatrixStacks)
        ensures
            final(self)@ == old(self)@.with_normal_tex(normal, stacks.texture),
    {
        if self.texcoord_transform_mode() == 2 {
            self.current_tex = transform_normal_source(normal, self.raw_tex, &stacks.texture);
        }
    }

    fn texcoord_transform_mode(&self) -> (r: u32)
        ensures
            r == self@.tex_mode(),
    {
        self.effective_tex_image_param() / 0x4000_0000
    }

    fn effective_tex_image_param(&self) -> (r: u32)
        ensures
            r == self@.effective_tex(),
    {
        if self.list_active {
            if let Some(p) = self.primitive {
                if p.is_strip() {
                    return self.strip_tex_image_param;
                }
            }
        }
        self.tex_image_param
    }
}

/// Build a polygon from its vertices, with the current attributes and texture
/// state.
fn make_polygon(
    verts: Vec<Vertex>,
    state: &VertexState,
    primitive: PrimitiveType,
    front_area_negative: bool,
) -> (r: Polygon)
    ensures
        r@ == state@.polygon(verts@, primitive, front_area_negative),
{
    let (tex_image_param, palette_base): (u32, u16) = if primitive.is_strip() {
        (state.strip_tex_image_param, state.strip_palette_base)
    } else {
        (state.tex_image_param, state.palette_base)
    };
    Polygon {
        vertices: verts,
        attr: state.polygon_attr,
        tex_image_param,
        palette_base,
        front_area_negative,
    }
}

/// A three-term dot product with exact intermediate values.
fn dot3_wide(a: [i32; 3], b0: i32, b1: i32, b2: i32) -> (r: i128)
    ensures
        r == a[0] * b0 + a[1] * b1 + a[2] * b2,
        -0x1_0000_0000_0000_0000 <= r <= 0x1_0000_0000_0000_0000,
{
    proof {
        fixed::lemma_i32_product(a[0], b0);
        fixed::lemma_i32_product(a[1], b1);
        fixed::lemma_i32_product(a[2], b2);
    }
    a[0] as i128 * b0 as i128 + a[1] as i128 * b1 as i128 + a[2] as i128 * b2 as i128
}

fn transform_texcoord_source(tex: [i16; 2], m: &Matrix) -> (r: [i16; 2])
    ensures
        r == tex_from_texcoord(tex, *m),
{
    proof {
        fixed::lemma_i32_product(tex[0] as i32, m.m[0]);
        fixed::lemma_i32_product(tex[1] as i32, m.m[4]);
        fixed::lemma_i32_product(tex[0] as i32, m.m[1]);
        fixed::lemma_i32_product(tex[1] as i32, m.m[5]);
    }
    // The constant rows count 1/16 in texture-coordinate units.
    let out_s: i128 = tex[0] as i128 * m.m[0] as i128 + tex[1] as i128 * m.m[4] as i128
        + m.m[8] as i128 + m.m[12] as i128;
    let out_t: i128 = tex[0] as i128 * m.m[1] as i128 + tex[1] as i128 * m.m[5] as i128
        + m.m[9] as i128 + m.m[13] as i128;
    [fixed::narrow_i16(fixed::shr12(out_s)), fixed::narrow_i16(fixed::shr12(out_t))]
}

fn transform_normal_source(normal: [i32; 3], tex: [i16; 2], m: &Matrix) -> (r: [i16; 2])
    ensures
        r == tex_from_source(normal, tex, *m, 0x2_0000),
{
    let out_s: i128 = fixed::shr17(dot3_wide(normal, m.m[0], m.m[4], m.m[8]));
    let out_t: i128 = fixed::shr17(dot3_wide(normal, m.m[1], m.m[5], m.m[9]));
    [
        fixed::narrow_i16(out_s + tex[0] as i128),
        fixed::narrow_i16(out_t + tex[1] as i128),
    ]
}

fn transform_vertex_source(pos: [i32; 3], tex: [i16; 2], m: &Matrix) -> (r: [i16; 2])
    ensures
        r == tex_from_source(pos, tex, *m, 0x10_0000),
{
    let out_s: i128 = fixed::shr20(dot3_wide(pos, m.m[0], m.m[4], m.m[8]));
    let out_t: i128 = fixed::shr20(dot3_wide(pos, m.m[1], m.m[5], m.m[9]));
    [
        fixed::narrow_i16(out_s + tex[0] as i128),
        fixed::narrow_i16(out_t + tex[1] as i128),
    ]
}

/// The position in the parameter words of `VTX_16`.
pub open spec fn position16(p0: u32, p1: u32) -> [i32; 3] {
    [fixed::low_half(p0) as i32, fixed::high_half(p0) as i32, fixed::low_half(p1) as i32]
}

/// The three 10-bit signed fields of a word, times `scale`.
pub open spec fn fields10(param: u32, scale: int) -> [i32; 3] {
    [
        (fixed::sign10(param) * scale) as i32,
        (fixed::sign10(param / 0x400) * scale) as i32,
        (fixed::sign10(param / 0x10_0000) * scale) as i32,
    ]
}

/// The position of `VTX_XY`, `VTX_XZ` or `VTX_YZ`: two new coordinates, the
/// third from the last vertex.
pub open spec fn position_pair(param: u32, last: [i32; 3], axis: VtxAxisPair) -> [i32; 3] {
    let a = fixed::low_half(param) as i32;
    let b = fixed::high_half(param) as i32;
    match axis {
        VtxAxisPair::XY => [a, b, last[2]],
        VtxAxisPair::XZ => [a, last[1], b],
        VtxAxisPair::YZ => [last[0], a, b],
    }
}

/// The position of `VTX_DIFF`: 10-bit signed steps from the last vertex.
pub open spec fn position_diff(param: u32, last: [i32; 3]) -> [i32; 3] {
    let d = fields10(param, 1);
    [
        fixed::wrap_i32(last[0] + d[0]),
        fixed::wrap_i32(last[1] + d[1]),
        fixed::wrap_i32(last[2] + d[2]),
    ]
}

/// Decode `VTX_16`: two parameter words supply the three signed 16-bit
/// object-space coordinates (x, y, z) and a padding half.
pub fn decode_vtx16(params: [u32; 2]) -> (r: [i32; 3])
    ensures
        r == position16(params[0], params[1]),
{
    let (x, y): (i16, i16) = fixed::signed_halves(params[0]);
    let (z, _pad): (i16, i16) = fixed::signed_halves(params[1]);
    [x as i32, y as i32, z as i32]
}

/// Decode `VTX_10`: three 10-bit signed components with 9 fractional bits, of
/// which six more make 1.19.12.
pub fn decode_vtx10(param: u32) -> (r: [i32; 3])
    ensures
        r == fields10(param, 64),
{
    let (x, y, z): (i32, i32, i32) = fixed::sign_extend10x3(param);
    [x * 64, y * 64, z * 64]
}

/// Decode `VTX_XY` / `VTX_XZ` / `VTX_YZ`: two of the three coordinates are in
/// the parameter word; the third is that of the last vertex.
pub fn decode_vtx_pair(param: u32, last: [i32; 3], axis: VtxAxisPair) -> (r: [i32; 3])
    ensures
        r == position_pair(param, last, axis),
{
    let (lo, hi): (i16, i16) = fixed::signed_halves(param);
    let a: i32 = lo as i32;
    let b: i32 = hi as i32;
    match axis {
        VtxAxisPair::XY => [a, b, last[2]],
        VtxAxisPair::XZ => [a, last[1], b],
        VtxAxisPair::YZ => [last[0], a, b],
    }
}

/// Decode `VTX_DIFF`: three 10-bit signed steps, in the same units as `VTX_16`,
/// from the last vertex.
pub fn decode_vtx_diff(param: u32, last: [i32; 3]) -> (r: [i32; 3])
    ensures
        r == position_diff(param, last),
{
    let (dx, dy, dz): (i32, i32, i32) = fixed::sign_extend10x3(param);
    [
        fixed::narrow_i32(last[0] as i128 + dx as i128),
        fixed::narrow_i32(last[1] as i128 + dy as i128),
        fixed::narrow_i32(last[2] as i128 + dz as i128),
    ]
}

#[derive(Debug, Clone, Copy)]
pub enum VtxAxisPair {
    XY,
    XZ,
    YZ,
}

/// The word that holds two signed halves.
pub open spec fn halves(low: i16, high: i16) -> u32 {
    (low as int % 0x1_0000 + 0x1_0000 * (high as int % 0x1_0000)) as u32
}

pub proof fn lemma_halves(low: i16, high: i16)
    ensures
        fixed::low_half(halves(low, high)) == low,
        fixed::high_half(halves(low, high)) == high,
{
    let w = halves(low, high) as int;
    let l = low as int % 0x1_0000;
    let h = high as int % 0x1_0000;
    assert(w == l + 0x1_0000 * h);
    assert(w % 0x1_0000 == l);
    assert(w / 0x1_0000 == h);
}

/// A 16-bit vertex has x and y in the halves of its first word, low half first, and z
/// in the low half of the second one.
pub proof fn law_vertex_16_fields(x: i16, y: i16, z: i16, rest: i16)
    ensures
        position16(halves(x, y), halves(z, rest)) == [x as i32, y as i32, z as i32],
{
    lemma_halves(x, y);
    lemma_halves(z, rest);
    assert(position16(halves(x, y), halves(z, rest)) =~= [x as i32, y as i32, z as i32]);
}

/// A vertex of two coordinates keeps the third from the one before.
pub proof fn law_vertex_pair_fields(a: i16, b: i16, last: [i32; 3])
    ensures
        position_pair(halves(a, b), last, VtxAxisPair::XY) == [a as i32, b as i32, last[2]],
        position_pair(halves(a, b), last, VtxAxisPair::XZ) == [a as i32, last[1], b as i32],
        position_pair(halves(a, b), last, VtxAxisPair::YZ) == [last[0], a as i32, b as i32],
{
    lemma_halves(a, b);
}

/// The word that holds three signed 10-bit fields, lowest first, and two bits more.
pub open spec fn tens(x: int, y: int, z: int, rest: int) -> u32 {
    (x % 0x400 + 0x400 * (y % 0x400) + 0x10_0000 * (z % 0x400) + 0x4000_0000 * rest) as u32
}

pub proof fn lemma_tens(x: int, y: int, z: int, rest: int, scale: int)
    requires
        -512 <= x < 512,
        -512 <= y < 512,
        -512 <= z < 512,
        0 <= rest < 4,
        scale == 1 || scale == 8 || scale == 64,
    ensures
        fields10(tens(x, y, z, rest), scale)[0] == x * scale,
        fields10(tens(x, y, z, rest), scale)[1] == y * scale,
        fields10(tens(x, y, z, rest), scale)[2] == z * scale,
{
    let (a, b, c) = (x % 0x400, y % 0x400, z % 0x400);
    let w = a + 0x400 * b + 0x10_0000 * c + 0x4000_0000 * rest;
    assert(w == a + 0x400 * (b + 0x400 * (c + 0x400 * rest)));
    assert(w % 0x400 == a);
    assert(w / 0x400 == b + 0x400 * (c + 0x400 * rest));
    assert(w / 0x400 % 0x400 == b);
    assert(w / 0x10_0000 == c + 0x400 * rest);
    assert(w / 0x10_0000 % 0x400 == c);
    let word = tens(x, y, z, rest);
    assert(word as int == w);
    assert(fixed::sign10(word) == x);
    assert(fixed::sign10(word / 0x400) == y);
    assert(fixed::sign10(word / 0x10_0000) == z);
}

/// A 10-bit vertex has three fields of 10 bits with 6 fractional bits each, x lowest:
/// they stand for 64 times their value.
pub proof fn law_vertex_10_fields(x: int, y: int, z: int, rest: int)
    requires
        -512 <= x < 512,
        -512 <= y < 512,
        -512 <= z < 512,
        0 <= rest < 4,
    ensures
        fields10(tens(x, y, z, rest), 64)[0] == x * 64,
        fields10(tens(x, y, z, rest), 64)[1] == y * 64,
        fields10(tens(x, y, z, rest), 64)[2] == z * 64,
{
    lemma_tens(x, y, z, rest, 64);
}

/// A relative vertex moves the one before by three signed fields of 10 bits.
pub proof fn law_vertex_difference(x: int, y: int, z: int, rest: int, last: [i32; 3])
    requires
        -512 <= x < 512,
        -512 <= y < 512,
        -512 <= z < 512,
        0 <= rest < 4,
        forall|i: int| 0 <= i < 3 ==> -0x4000_0000 <= #[trigger] last[i] < 0x4000_0000,
    ensures
        position_diff(tens(x, y, z, rest), last)[0] == last[0] + x,
        position_diff(tens(x, y, z, rest), last)[1] == last[1] + y,
        position_diff(tens(x, y, z, rest), last)[2] == last[2] + z,
{
    lemma_tens(x, y, z, rest, 1);
    assert(-0x4000_0000 <= last[0] < 0x4000_0000);
    assert(-0x4000_0000 <= last[1] < 0x4000_0000);
    assert(-0x4000_0000 <= last[2] < 0x4000_0000);
    fixed::lemma_wrap_i32_fits(last[0] + x);
    fixed::lemma_wrap_i32_fits(last[1] + y);
    fixed::lemma_wrap_i32_fits(last[2] + z);
}

/// A texture coordinate word has S in its low half and T in its high half. Without a
/// transform the two are used as they stand; in mode 1 the first column of the
/// texture matrix gives S and the second T, the last two rows as 1/16.
pub proof fn law_texcoord_fields(s: VertexView, u: i16, v: i16, m: Matrix)
    ensures
        ({
            let after = s.with_texcoord(halves(u, v), m);
            let mode = s.effective_tex() as int / 0x4000_0000;
            &&& after.raw_tex[0] == u && after.raw_tex[1] == v
            &&& mode != 1 ==> after.current_tex[0] == u && after.current_tex[1] == v
            &&& mode == 1 ==> after.current_tex[0] == fixed::wrap_i16(
                (u * m.entry(0, 0) + v * m.entry(1, 0) + m.entry(2, 0) + m.entry(3, 0)) / 4096,
            )
            &&& mode == 1 ==> after.current_tex[1] == fixed::wrap_i16(
                (u * m.entry(0, 1) + v * m.entry(1, 1) + m.entry(2, 1) + m.entry(3, 1)) / 4096,
            )
            &&& mode == 1 && m == matrix::identity() ==> after.current_tex[0] == u
                && after.current_tex[1] == v
        }),
{
    lemma_halves(u, v);
    if m == matrix::identity() {
        assert(m.entry(0, 0) == 4096 && m.entry(1, 1) == 4096);
        assert(m.entry(1, 0) == 0 && m.entry(2, 0) == 0 && m.entry(3, 0) == 0);
        assert(m.entry(0, 1) == 0 && m.entry(2, 1) == 0 && m.entry(3, 1) == 0);
        assert(u * 0 == 0 && v * 0 == 0);
        lemma_i16_fits(u as int);
        lemma_i16_fits(v as int);
    }
}

proof fn lemma_i16_fits(x: int)
    requires
        -0x8000 <= x < 0x8000,
    ensures
        fixed::wrap_i16(x) == x,
{
}

/// In mode 2 a normal moves the texture coordinates from where `TEXCOORD` put them,
/// by the normal through the first two columns of the texture matrix; in the other
/// modes it leaves them. A zero normal gives the coordinates of `TEXCOORD`.
pub proof fn law_normal_texture_source(s: VertexView, n: [i32; 3], m: Matrix)
    ensures
        ({
            let after = s.with_normal_tex(n, m);
            let mode = s.effective_tex() as int / 0x4000_0000;
            &&& mode != 2 ==> after == s
            &&& mode == 2 ==> after.current_tex[0] == fixed::wrap_i16(
                s.raw_tex[0] + (n[0] * m.entry(0, 0) + n[1] * m.entry(1, 0) + n[2] * m.entry(2, 0))
                    / 0x2_0000,
            )
            &&& mode == 2 ==> after.current_tex[1] == fixed::wrap_i16(
                s.raw_tex[1] + (n[0] * m.entry(0, 1) + n[1] * m.entry(1, 1) + n[2] * m.entry(2, 1))
                    / 0x2_0000,
            )
            &&& after.raw_tex == s.raw_tex
        }),
{
}

/// A vertex carries the current color. In mode 3 its texture coordinates are those of
/// `TEXCOORD` moved by its position through the texture matrix, otherwise the
/// current ones. Its clip coordinates are its position times the clip matrix.
pub proof fn law_vertex_parts(s: VertexView, pos: [i32; 3], stacks: StacksState)
    ensures
        ({
            let v = s.vertex_at(pos, stacks);
            let m = stacks.texture;
            let mode = s.effective_tex() as int / 0x4000_0000;
            &&& v.color == s.current_color
            &&& mode != 3 ==> v.tex == s.current_tex
            &&& mode == 3 ==> v.tex[0] == fixed::wrap_i16(
                s.raw_tex[0] + (pos[0] * m.entry(0, 0) + pos[1] * m.entry(1, 0) + pos[2] * m.entry(
                    2,
                    0,
                )) / 0x10_0000,
            )
            &&& mode == 3 ==> v.tex[1] == fixed::wrap_i16(
                s.raw_tex[1] + (pos[0] * m.entry(0, 1) + pos[1] * m.entry(1, 1) + pos[2] * m.entry(
                    2,
                    1,
                )) / 0x10_0000,
            )
            &&& stacks.position == matrix::identity() && stacks.projection == matrix::identity()
                ==> v.clip == [pos[0], pos[1], pos[2], 4096i32]
        }),
{
    if stacks.position == matrix::identity() && stacks.projection == matrix::identity() {
        matrix::law_identity_left(stacks.projection);
        matrix::law_identity_transform([pos[0], pos[1], pos[2], ONE]);
        assert(stacks.clip() == matrix::identity());
        assert([pos[0], pos[1], pos[2], ONE] =~= [pos[0], pos[1], pos[2], 4096i32]);
    }
}

/// Polygons take their corners in order: separate triangles and quads the last three
/// or four vertices, which then make room; a triangle of a strip the last three, with
/// every second one turned; a quad of a strip the last four, the last two exchanged.
pub proof fn law_assembly_order(s: VertexView, pos: [i32; 3], stacks: StacksState)
    requires
        s.primitive is Some,
    ensures
        ({
            let v = s.vertex_at(pos, stacks);
            let vs = s.vertex_buffer;
            let n = vs.len() as int;
            let after = s.submitted(pos, stacks);
            let made = after.polygon_buffer.last();
            let one_more = after.polygon_buffer == s.polygon_buffer.push(made);
            &&& after.last_pos == pos
            &&& s.primitive == Some(PrimitiveType::Triangles) && n == 2 ==> {
                &&& one_more && made.vertices == seq![vs[0], vs[1], v]
                &&& made.front_area_negative && after.vertex_buffer.len() == 0
            }
            &&& s.primitive == Some(PrimitiveType::Quads) && n == 3 ==> {
                &&& one_more && made.vertices == seq![vs[0], vs[1], vs[2], v]
                &&& made.front_area_negative && after.vertex_buffer.len() == 0
            }
            &&& s.primitive == Some(PrimitiveType::TriangleStrip) && n >= 2 ==> {
                &&& one_more && made.vertices == seq![vs[n - 2], vs[n - 1], v]
                &&& made.front_area_negative == (n % 2 == 0)
                &&& after.vertex_buffer == vs.push(v)
            }
            &&& s.primitive == Some(PrimitiveType::QuadStrip) && n >= 3 && n % 2 == 1 ==> {
                &&& one_more && made.vertices == seq![vs[n - 3], vs[n - 2], v, vs[n - 1]]
                &&& made.front_area_negative
                &&& after.vertex_buffer == vs.push(v)
            }
            &&& s.primitive == Some(PrimitiveType::QuadStrip) && n % 2 == 0 ==> {
                after.polygon_buffer == s.polygon_buffer
            }
        }),
{
    let v = s.vertex_at(pos, stacks);
    let vs = s.vertex_buffer.push(v);
    let n = s.vertex_buffer.len() as int;
    if n == 2 {
        assert(vs =~= seq![vs[0], vs[1], v]);
    }
    if n == 3 {
        assert(vs =~= seq![vs[0], vs[1], vs[2], v]);
    }
    if n >= 2 {
        assert((n + 1 - 3) % 2 == n % 2);
    }
}

/// An assembled polygon has the attributes its list began with, and the texture in
/// force: the current one, in a strip the one its list began with.
pub proof fn law_polygon_binding(
    s: VertexView,
    vertices: Seq<Vertex>,
    primitive: PrimitiveType,
    front: bool,
)
    ensures
        ({
            let p = s.polygon(vertices, primitive, front);
            let strip = primitive == PrimitiveType::TriangleStrip || primitive
                == PrimitiveType::QuadStrip;
            &&& p.vertices == vertices
            &&& p.attr == s.polygon_attr
            &&& p.front_area_negative == front
            &&& p.tex_image_param == if strip { s.strip_tex_image_param } else { s.tex_image_param }
            &&& p.palette_base == if strip { s.strip_palette_base } else { s.palette_base }
            &&& s.begun(primitive).strip_tex_image_param == s.tex_image_param
            &&& s.begun(primitive).strip_palette_base == s.palette_base
        }),
{
}

/// A list is unfinished while it holds part of a polygon: of separate ones what does not
/// make three or four vertices, of a strip one or two vertices, of a strip of quads up
/// to three or an odd number.
pub proof fn law_unfinished_lists(s: VertexView)
    ensures
        ({
            let n = s.vertex_buffer.len();
            &&& !s.list_active || s.primitive is None ==> !s.incomplete()
            &&& s.list_active && s.primitive == Some(PrimitiveType::Triangles) ==> s.incomplete()
                == (n % 3 != 0)
            &&& s.list_active && s.primitive == Some(PrimitiveType::Quads) ==> s.incomplete() == (n
                % 4 != 0)
            &&& s.list_active && s.primitive == Some(PrimitiveType::TriangleStrip)
                ==> s.incomplete() == (n == 1 || n == 2)
            &&& s.list_active && s.primitive == Some(PrimitiveType::QuadStrip) ==> s.incomplete()
                == (n == 2 || n % 2 == 1)
            &&& !s.ended().incomplete()
            &&& s.ended().polygon_buffer == s.polygon_buffer
        }),
{
}

/// A list begins empty, with its own primitive; outside a list vertices are ignored.
pub proof fn law_lists_begin_empty(
    s: VertexView,
    primitive: PrimitiveType,
    pos: [i32; 3],
    stacks: StacksState,
)
    ensures
        s.begun(primitive).vertex_buffer.len() == 0,
        s.begun(primitive).list_active,
        s.begun(primitive).primitive == Some(primitive),
        s.begun(primitive).polygon_buffer == s.polygon_buffer,
        s.begun(primitive).current_color == s.current_color,
        s.pending_polygon_attr is None ==> s.begun(primitive).polygon_attr == s.polygon_attr,
        s.primitive is None ==> s.submitted(pos, stacks) == s,
{
}

/// A position, with 1.0 for its fourth component, goes through the position matrix and
/// then through the projection: where one is the identity, it is taken by the other.
pub proof fn law_vertex_position(s: VertexView, pos: [i32; 3], stacks: StacksState)
    ensures
        ({
            let p = [pos[0], pos[1], pos[2], 4096i32];
            let v = s.vertex_at(pos, stacks);
            &&& stacks.position == matrix::identity() ==> v.clip == matrix::transformed(
                p,
                stacks.projection,
            )
            &&& stacks.projection == matrix::identity() ==> v.clip == matrix::transformed(
                p,
                stacks.position,
            )
        }),
{
    assert([pos[0], pos[1], pos[2], ONE] =~= [pos[0], pos[1], pos[2], 4096i32]);
    matrix::law_identity_left(stacks.projection);
    matrix::law_identity_right(stacks.position);
}

} // verus!
