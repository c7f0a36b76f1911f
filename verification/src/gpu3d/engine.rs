//! 3D geometry engine: ties matrix stacks, vertex pipeline, lighting, clipping
//! and viewport together into a state machine that consumes decoded commands
//! from the GXFIFO and produces screen polygons in the raster-side buffer.
//!
//! The bus writes into the GXFIFO and calls `drain_fifo` after each write that
//! might have completed a command.

use vstd::prelude::*;
use crate::fixed;
use crate::vram::{BankState, VramRouter};
use super::boxtest;
use super::clip;
use super::clip::clip_polygon;
use super::command;
use super::command::GxCmd;
use super::fifo;
use super::fifo::{FifoState, GxFifo, GxOp, OpState};
use super::lighting;
use super::lighting::{compute_vertex_color, LightingState, LightingView};
use super::matrix;
use super::matrix::{Matrix, ONE};
use super::raster;
use super::raster::{RasterState, Rasterizer};
use super::stacks;
use super::stacks::{MatrixStacks, MtxMode, StacksState};
use super::vertex;
use super::vertex::{
    decode_vtx10, decode_vtx16, decode_vtx_diff, decode_vtx_pair, Polygon, PolygonState,
    PrimitiveType, Vertex, VertexState, VertexView, VtxAxisPair,
};
use super::viewport;
use super::viewport::{transform_polygon, ScreenPolygon, ScreenPolygonState, ScreenVertex, Viewport};

verus! {

/// Maximum polygons / vertices per frame.
pub const POLYGON_BUF_LIMIT: usize = 2048;
pub const VERTEX_BUF_LIMIT: usize = 6144;

/// Full 3D engine state.
#[derive(Debug, Clone)]
pub struct Engine3d {
    pub stacks: MatrixStacks,
    pub vertex: VertexState,
    pub lighting: LightingState,
    pub fifo: GxFifo,
    pub viewport: Viewport,
    /// Geometry buffer: polygons under construction this frame.
    pub geometry_polygons: Vec<ScreenPolygon>,
    /// Raster buffer: last frame's geometry, swapped in by SWAP_BUFFERS and
    /// rasterized at the same time.
    pub raster_polygons: Vec<ScreenPolygon>,
    /// Set when `SWAP_BUFFERS` is executed; cleared at the next frame boundary.
    pub swap_pending: bool,
    /// SWAP_BUFFERS attributes of the geometry currently being built. The
    /// command's bits apply to following geometry, not to the frame that is
    /// being swapped out.
    pub geometry_swap_attrs: u32,
    /// Latched SWAP_BUFFERS parameter, applied to the next geometry buffer after
    /// the pending swap.
    pub pending_swap_attrs: u32,
    /// Sticky lock-up caused by SWAP_BUFFERS with an incomplete polygon list.
    pub geometry_locked: bool,
    /// Results of POS_TEST.
    pub pos_test_result: [i32; 4],
    /// Results of VEC_TEST.
    pub vec_test_result: [i16; 3],
    /// Result of BOX_TEST, shown as GXSTAT bit 1.
    pub box_test_visible: bool,
    pub test_busy: bool,
    /// DISP_1DOT_DEPTH: zero-size polygon W-depth cutoff.
    pub disp_1dot_depth: u16,
    /// 3D rasterizer.
    pub rasterizer: Rasterizer,
}

/// The engine as contracts speak of it.
#[verifier::ext_equal]
pub struct EngineState {
    pub stacks: StacksState,
    pub vertex: VertexView,
    pub lighting: LightingView,
    pub fifo: FifoState,
    pub viewport: Viewport,
    pub geometry_polygons: Seq<ScreenPolygonState>,
    pub raster_polygons: Seq<ScreenPolygonState>,
    pub swap_pending: bool,
    pub geometry_swap_attrs: u32,
    pub pending_swap_attrs: u32,
    pub geometry_locked: bool,
    pub pos_test_result: [i32; 4],
    pub vec_test_result: [i16; 3],
    pub box_test_visible: bool,
    pub test_busy: bool,
    pub disp_1dot_depth: u16,
    pub rasterizer: RasterState,
}

impl View for Engine3d {
    type V = EngineState;

    open spec fn view(&self) -> EngineState {
        EngineState {
            stacks: self.stacks@,
            vertex: self.vertex@,
            lighting: self.lighting@,
            fifo: self.fifo@,
            viewport: self.viewport,
            geometry_polygons: raster::polygon_states(self.geometry_polygons@),
            raster_polygons: raster::polygon_states(self.raster_polygons@),
            swap_pending: self.swap_pending,
            geometry_swap_attrs: self.geometry_swap_attrs,
            pending_swap_attrs: self.pending_swap_attrs,
            geometry_locked: self.geometry_locked,
            pos_test_result: self.pos_test_result,
            vec_test_result: self.vec_test_result,
            box_test_visible: self.box_test_visible,
            test_busy: self.test_busy,
            disp_1dot_depth: self.disp_1dot_depth,
            rasterizer: self.rasterizer@,
        }
    }
}

/// Vertices of a sequence of polygons.
pub open spec fn vertex_total(polys: Seq<ScreenPolygonState>) -> int
    decreases polys.len(),
{
    if polys.len() == 0 {
        0
    } else {
        vertex_total(polys.drop_last()) + polys.last().vertices.len()
    }
}

/// Parameter `i` of a command; a missing one counts as 0.
pub open spec fn param(params: Seq<u32>, i: int) -> u32 {
    if 0 <= i < params.len() { params[i] } else { 0 }
}

/// Parameter `i` as a signed number.
pub open spec fn signed_param(params: Seq<u32>, i: int) -> i32 {
    fixed::wrap_i32(param(params, i) as int)
}

/// The matrix of 16 parameters.
pub open spec fn matrix_4x4(p: Seq<u32>) -> Matrix {
    Matrix {
        m: [
            signed_param(p, 0), signed_param(p, 1), signed_param(p, 2), signed_param(p, 3),
            signed_param(p, 4), signed_param(p, 5), signed_param(p, 6), signed_param(p, 7),
            signed_param(p, 8), signed_param(p, 9), signed_param(p, 10), signed_param(p, 11),
            signed_param(p, 12), signed_param(p, 13), signed_param(p, 14), signed_param(p, 15),
        ],
    }
}

/// The matrix of 12 parameters.
pub open spec fn matrix_4x3(p: Seq<u32>) -> Matrix {
    matrix::from_4x3(
        [
            signed_param(p, 0), signed_param(p, 1), signed_param(p, 2), signed_param(p, 3),
            signed_param(p, 4), signed_param(p, 5), signed_param(p, 6), signed_param(p, 7),
            signed_param(p, 8), signed_param(p, 9), signed_param(p, 10), signed_param(p, 11),
        ],
    )
}

/// The matrix of 9 parameters.
pub open spec fn matrix_3x3(p: Seq<u32>) -> Matrix {
    matrix::from_3x3(
        [
            signed_param(p, 0), signed_param(p, 1), signed_param(p, 2), signed_param(p, 3),
            signed_param(p, 4), signed_param(p, 5), signed_param(p, 6), signed_param(p, 7),
            signed_param(p, 8),
        ],
    )
}

/// The value that VEC_TEST shows of a component: 13 bits, sign-extended.
pub open spec fn vec_test_value(v: i32) -> i16 {
    let m = v as int % 0x2000;
    (if m >= 0x1000 { m - 0x2000 } else { m }) as i16
}

/// Whether a vertex lies beyond the far plane.
pub open spec fn crosses_far_plane(vs: Seq<Vertex>) -> bool {
    exists|i: int| 0 <= i < vs.len() && (#[trigger] vs[i]).clip[2] > vs[i].clip[3]
}

/// Whether a polygon of zero size is hidden: attribute bit 13 is clear, all its
/// vertices fall on one pixel, and all lie beyond the cutoff depth.
pub open spec fn hidden_dot(p: ScreenPolygonState, disp_1dot_depth: u16) -> bool {
    let vs = p.vertices;
    let boundary = disp_1dot_depth as int % 0x8000 * 512;
    &&& !fixed::bit(p.attr as int, 0x2000)
    &&& vs.len() > 0
    &&& forall|i: int|
        0 <= i < vs.len() ==> (#[trigger] vs[i]).screen_x as int / 256 == vs[0].screen_x as int / 256
            && vs[i].screen_y as int / 256 == vs[0].screen_y as int / 256 && vs[i].w > boundary
}

/// The geometry buffer and the overflow flag after one assembled polygon: it is
/// dropped where a limit is reached, where it crosses the far plane without
/// attribute bit 12, where nothing of it remains after clipping, and where it
/// is a hidden dot.
#[verifier::opaque]
pub open spec fn placed(
    g: Seq<ScreenPolygonState>,
    overflow: bool,
    p: PolygonState,
    vp: Viewport,
    disp_1dot_depth: u16,
) -> (Seq<ScreenPolygonState>, bool) {
    if g.len() >= POLYGON_BUF_LIMIT {
        (g, true)
    } else if !fixed::bit(p.attr as int, 0x1000) && crosses_far_plane(p.vertices) {
        (g, overflow)
    } else {
        match clip::clipped(p.vertices) {
            None => (g, overflow),
            Some(vertices) => {
                let screen = viewport::polygon_on_screen(PolygonState { vertices, ..p }, vp);
                if vertex_total(g) + vertices.len() > VERTEX_BUF_LIMIT {
                    (g, true)
                } else if hidden_dot(screen, disp_1dot_depth) {
                    (g, overflow)
                } else {
                    (g.push(screen), overflow)
                }
            },
        }
    }
}

/// The part of the engine that a command concerns.
#[derive(Debug, Clone, Copy, PartialEq, Eq, Structural)]
pub enum Unit {
    /// The matrix stacks.
    Stacks,
    /// The vertex pipeline.
    Vertices,
    /// The lighting unit.
    Lights,
    /// More than one of these, or the tests.
    Engine,
}

/// The part of the engine that a command concerns.
pub open spec fn unit_of(cmd: GxCmd) -> Unit {
    match cmd {
        GxCmd::MtxMode | GxCmd::MtxPush | GxCmd::MtxPop | GxCmd::MtxStore | GxCmd::MtxRestore
        | GxCmd::MtxIdentity | GxCmd::MtxLoad4x4 | GxCmd::MtxLoad4x3 | GxCmd::MtxMult4x4
        | GxCmd::MtxMult4x3 | GxCmd::MtxMult3x3 | GxCmd::MtxScale | GxCmd::MtxTrans => Unit::Stacks,
        GxCmd::SpeEmi | GxCmd::LightVector | GxCmd::LightColor | GxCmd::Shininess => Unit::Lights,
        GxCmd::Normal | GxCmd::DifAmb | GxCmd::SwapBuffers | GxCmd::Viewport | GxCmd::BoxTest
        | GxCmd::PosTest | GxCmd::VecTest => Unit::Engine,
        _ => Unit::Vertices,
    }
}

fn unit_for(cmd: GxCmd) -> (r: Unit)
    ensures
        r == unit_of(cmd),
{
    match cmd {
        GxCmd::MtxMode | GxCmd::MtxPush | GxCmd::MtxPop | GxCmd::MtxStore | GxCmd::MtxRestore
        | GxCmd::MtxIdentity | GxCmd::MtxLoad4x4 | GxCmd::MtxLoad4x3 | GxCmd::MtxMult4x4
        | GxCmd::MtxMult4x3 | GxCmd::MtxMult3x3 | GxCmd::MtxScale | GxCmd::MtxTrans => Unit::Stacks,
        GxCmd::SpeEmi | GxCmd::LightVector | GxCmd::LightColor | GxCmd::Shininess => Unit::Lights,
        GxCmd::Normal | GxCmd::DifAmb | GxCmd::SwapBuffers | GxCmd::Viewport | GxCmd::BoxTest
        | GxCmd::PosTest | GxCmd::VecTest => Unit::Engine,
        _ => Unit::Vertices,
    }
}

/// The matrix stacks after a matrix command.
#[verifier::opaque]
pub open spec fn stacks_after(s: StacksState, cmd: GxCmd, p: Seq<u32>) -> StacksState {
    let p0 = param(p, 0);
    match cmd {
        GxCmd::MtxMode => StacksState { mode: stacks::mode_of(p0), ..s },
        GxCmd::MtxPush => s.pushed(),
        GxCmd::MtxPop => s.popped(p0),
        GxCmd::MtxStore => s.stored(p0),
        GxCmd::MtxRestore => s.restored(p0),
        GxCmd::MtxIdentity => s.loaded(matrix::identity()),
        GxCmd::MtxLoad4x4 => s.loaded(matrix_4x4(p)),
        GxCmd::MtxLoad4x3 => s.loaded(matrix_4x3(p)),
        GxCmd::MtxMult4x4 => s.multiplied(matrix_4x4(p)),
        GxCmd::MtxMult4x3 => s.multiplied(matrix_4x3(p)),
        GxCmd::MtxMult3x3 => s.multiplied(matrix_3x3(p)),
        GxCmd::MtxScale => s.scaled(signed_param(p, 0), signed_param(p, 1), signed_param(p, 2)),
        GxCmd::MtxTrans => s.multiplied(
            matrix::translation(signed_param(p, 0), signed_param(p, 1), signed_param(p, 2)),
        ),
        _ => s,
    }
}

/// The vertex pipeline after a vertex command.
#[verifier::opaque]
pub open spec fn vertices_after(
    v: VertexView,
    stacks: StacksState,
    cmd: GxCmd,
    p: Seq<u32>,
) -> VertexView {
    let p0 = param(p, 0);
    match cmd {
        GxCmd::Color => VertexView { current_color: (p0 as int % 0x8000) as u16, ..v },
        GxCmd::TexCoord => v.with_texcoord(p0, stacks.texture),
        GxCmd::Vtx16 => v.submitted(vertex::position16(p0, param(p, 1)), stacks),
        GxCmd::Vtx10 => v.submitted(vertex::fields10(p0, 64), stacks),
        GxCmd::VtxXY => v.submitted(
            vertex::position_pair(p0, v.last_pos, VtxAxisPair::XY),
            stacks,
        ),
        GxCmd::VtxXZ => v.submitted(
            vertex::position_pair(p0, v.last_pos, VtxAxisPair::XZ),
            stacks,
        ),
        GxCmd::VtxYZ => v.submitted(
            vertex::position_pair(p0, v.last_pos, VtxAxisPair::YZ),
            stacks,
        ),
        GxCmd::VtxDiff => v.submitted(vertex::position_diff(p0, v.last_pos), stacks),
        GxCmd::PolygonAttr => VertexView { pending_polygon_attr: Some(p0), ..v },
        GxCmd::TexImageParm => VertexView { tex_image_param: p0, ..v },
        GxCmd::PltBase => VertexView { palette_base: (p0 as int % 0x2000) as u16, ..v },
        GxCmd::BeginVtxs => v.begun(vertex::primitive_of(p0)),
        _ => v,
    }
}

/// The lighting unit after a lighting command.
#[verifier::opaque]
pub open spec fn lights_after(
    l: LightingView,
    vectors: Matrix,
    cmd: GxCmd,
    p: Seq<u32>,
) -> LightingView {
    match cmd {
        GxCmd::SpeEmi => l.with_spe_emi(param(p, 0)),
        GxCmd::LightVector => l.with_light_vector(param(p, 0), vectors),
        GxCmd::LightColor => l.with_light_color(param(p, 0)),
        GxCmd::Shininess => l.with_shininess(p),
        _ => l,
    }
}

proof fn lemma_stacks_after_wf(s: StacksState, cmd: GxCmd, p: Seq<u32>)
    requires
        s.wf(),
    ensures
        stacks_after(s, cmd, p).wf(),
{
    reveal(stacks_after);
}

proof fn lemma_lights_after_wf(l: LightingView, vectors: Matrix, cmd: GxCmd, p: Seq<u32>)
    requires
        l.wf(),
    ensures
        lights_after(l, vectors, cmd, p).wf(),
{
    reveal(lights_after);
}

/// A command of the engine as a whole keeps the FIFO, the raster side, the
/// geometry buffer and the matrix stacks.
proof fn lemma_engine_after_frame(s: EngineState, cmd: GxCmd, p: Seq<u32>)
    ensures
        ({
            let t = s.engine_after(cmd, p);
            &&& t.fifo == s.fifo
            &&& t.rasterizer == s.rasterizer
            &&& t.raster_polygons == s.raster_polygons
            &&& t.geometry_polygons == s.geometry_polygons
            &&& t.stacks == s.stacks
            &&& s.lighting.wf() ==> t.lighting.wf()
        }),
{
    reveal(EngineState::engine_after);
}

impl EngineState {
    /// The parts are well-formed and the geometry buffer is within its limits.
    pub open spec fn wf(self) -> bool {
        &&& self.stacks.wf()
        &&& self.lighting.wf()
        &&& self.fifo.wf()
        &&& self.rasterizer.wf()
        &&& self.geometry_polygons.len() <= POLYGON_BUF_LIMIT
        &&& vertex_total(self.geometry_polygons) <= VERTEX_BUF_LIMIT
    }

    /// After the first `k` polygons of a list went to the geometry buffer.
    pub open spec fn flushed_prefix(self, polys: Seq<PolygonState>, k: int) -> EngineState
        decreases k,
    {
        if k <= 0 {
            self
        } else {
            let s = self.flushed_prefix(polys, k - 1);
            let out = placed(
                s.geometry_polygons,
                s.fifo.overflow,
                polys[k - 1],
                s.viewport,
                s.disp_1dot_depth,
            );
            EngineState {
                geometry_polygons: out.0,
                fifo: FifoState { overflow: out.1, ..s.fifo },
                ..s
            }
        }
    }

    /// After the assembled polygons went to the geometry buffer.
    pub open spec fn flushed(self) -> EngineState {
        let polys = self.vertex.polygon_buffer;
        EngineState {
            vertex: VertexView { polygon_buffer: Seq::empty(), ..self.vertex },
            ..self
        }.flushed_prefix(polys, polys.len() as int)
    }

    /// After `NORMAL`: texture coordinates and lit color.
    pub open spec fn with_normal(self, p: u32) -> EngineState {
        let v = self.vertex.with_normal_tex(vertex::fields10(p, 1), self.stacks.texture);
        EngineState {
            vertex: VertexView {
                current_color: self.lighting.lit(
                    vertex::fields10(p, 8),
                    self.stacks.vector,
                    (v.polygon_attr as int % 16) as u8,
                ),
                ..v
            },
            ..self
        }
    }

    /// After `DIF_AMB`.
    pub open spec fn with_dif_amb(self, p: u32) -> EngineState {
        EngineState {
            lighting: self.lighting.with_dif_amb(p),
            vertex: if fixed::bit(p as int, 0x8000) {
                VertexView { current_color: (p as int % 0x8000) as u16, ..self.vertex }
            } else {
                self.vertex
            },
            ..self
        }
    }

    /// After `SWAP_BUFFERS`: an incomplete polygon list locks the engine.
    pub open spec fn with_swap(self, p: u32) -> EngineState {
        if self.vertex.incomplete() {
            EngineState { geometry_locked: true, ..self }
        } else {
            EngineState {
                swap_pending: true,
                pending_swap_attrs: p,
                vertex: self.vertex.ended(),
                ..self
            }
        }
    }

    /// After `BOX_TEST`.
    pub open spec fn with_box_test(self, p: Seq<u32>) -> EngineState {
        let p0 = param(p, 0);
        let p1 = param(p, 1);
        let p2 = param(p, 2);
        EngineState {
            box_test_visible: boxtest::visible(
                [
                    fixed::low_half(p0) as i32,
                    fixed::high_half(p0) as i32,
                    fixed::low_half(p1) as i32,
                ],
                [
                    fixed::high_half(p1) as i32,
                    fixed::low_half(p2) as i32,
                    fixed::high_half(p2) as i32,
                ],
                self.stacks.clip(),
            ),
            test_busy: false,
            ..self
        }
    }

    /// After `POS_TEST`.
    pub open spec fn with_pos_test(self, p: Seq<u32>) -> EngineState {
        let pos = vertex::position16(param(p, 0), param(p, 1));
        EngineState {
            vertex: VertexView { last_pos: pos, ..self.vertex },
            pos_test_result: matrix::transformed(
                [pos[0], pos[1], pos[2], ONE],
                self.stacks.clip(),
            ),
            test_busy: false,
            ..self
        }
    }

    /// After `VEC_TEST`, which works in matrix mode 2 only.
    pub open spec fn with_vec_test(self, p: u32) -> EngineState {
        let v = vertex::fields10(p, 8);
        let out = matrix::transformed([v[0], v[1], v[2], 0], self.stacks.vector);
        EngineState {
            vec_test_result: if self.stacks.mode == MtxMode::PosVector {
                [vec_test_value(out[0]), vec_test_value(out[1]), vec_test_value(out[2])]
            } else {
                self.vec_test_result
            },
            test_busy: false,
            ..self
        }
    }

    /// The immediate effect of a command.
    pub open spec fn executed(self, cmd: GxCmd, p: Seq<u32>) -> EngineState {
        match unit_of(cmd) {
            Unit::Stacks => EngineState { stacks: stacks_after(self.stacks, cmd, p), ..self },
            Unit::Vertices => EngineState {
                vertex: vertices_after(self.vertex, self.stacks, cmd, p),
                ..self
            },
            Unit::Lights => EngineState {
                lighting: lights_after(self.lighting, self.stacks.vector, cmd, p),
                ..self
            },
            Unit::Engine => self.engine_after(cmd, p),
        }
    }

    /// The effect of a command that concerns more than one unit, or a test.
    #[verifier::opaque]
    pub open spec fn engine_after(self, cmd: GxCmd, p: Seq<u32>) -> EngineState {
        match cmd {
            GxCmd::Normal => self.with_normal(param(p, 0)),
            GxCmd::DifAmb => self.with_dif_amb(param(p, 0)),
            GxCmd::SwapBuffers => self.with_swap(param(p, 0)),
            GxCmd::Viewport => EngineState {
                viewport: viewport::viewport_of(param(p, 0)),
                ..self
            },
            GxCmd::BoxTest => self.with_box_test(p),
            GxCmd::PosTest => self.with_pos_test(p),
            GxCmd::VecTest => self.with_vec_test(param(p, 0)),
            _ => self,
        }
    }

    /// After a decoded command: its effect, then newly completed polygons go to
    /// the geometry buffer. A swap that locks the engine moves no polygons; an
    /// unknown opcode does nothing.
    #[verifier::opaque]
    pub open spec fn dispatched(self, op: OpState) -> EngineState {
        match command::command_of(op.cmd) {
            None => self,
            Some(cmd) => if cmd == GxCmd::SwapBuffers && self.vertex.incomplete() {
                self.executed(cmd, op.params)
            } else {
                self.executed(cmd, op.params).flushed()
            },
        }
    }

    /// Whether the engine accepts no command.
    pub open spec fn stalled(self) -> bool {
        self.swap_pending || self.geometry_locked
    }

    /// After ready commands are executed in order, until none is left or a swap
    /// stalls the engine.
    pub open spec fn run(self) -> EngineState
        decreases self.fifo.ready.len(),
    {
        if self.stalled() || self.fifo.ready.len() == 0 {
            self
        } else {
            proof {
                lemma_dispatch_frame(
                    EngineState { fifo: self.fifo.popped(), ..self },
                    self.fifo.ready[0],
                );
            }
            EngineState { fifo: self.fifo.popped(), ..self }.dispatched(self.fifo.ready[0]).run()
        }
    }

    /// After the FIFO is drained.
    pub open spec fn drained(self) -> EngineState {
        let s = self.run();
        if s.stalled() {
            s
        } else {
            EngineState { fifo: s.fifo.reconciled(), ..s }
        }
    }

    /// After the frame-boundary swap: the geometry buffer becomes the raster
    /// buffer and is rendered, the attributes of the swap command take effect
    /// for the geometry that follows, and the stalled commands run.
    pub open spec fn swapped(self, banks: Option<Seq<BankState>>) -> EngineState {
        if self.geometry_locked || !self.swap_pending {
            self
        } else {
            EngineState {
                raster_polygons: self.geometry_polygons,
                geometry_polygons: Seq::empty(),
                swap_pending: false,
                rasterizer: raster::rendered(
                    raster::with_swap_attrs(self.rasterizer, self.geometry_swap_attrs),
                    self.geometry_polygons,
                    banks,
                ),
                geometry_swap_attrs: self.pending_swap_attrs,
                ..self
            }.drained()
        }
    }

    /// Whether GXSTAT reports the engine busy.
    pub open spec fn busy(self) -> bool {
        self.geometry_locked || self.swap_pending || self.fifo.words.len() > 0
            || self.fifo.ready.len() > 0 || self.vertex.polygon_buffer.len() > 0
    }

    /// The lower half of `GXSTAT`: test busy, box visible, position stack level,
    /// projection stack level, stack error.
    pub open spec fn status_low(self) -> int {
        (if self.test_busy { 1int } else { 0 }) + (if self.box_test_visible { 2int } else { 0 })
            + self.stacks.position_sp as int % 32 * 0x100 + (if self.stacks.projection_sp != 0 {
            0x2000int
        } else {
            0
        }) + (if self.stacks.overflow { 0x8000int } else { 0 })
    }
}

proof fn lemma_flush_frame(s: EngineState, polys: Seq<PolygonState>, k: int)
    ensures
        s.flushed_prefix(polys, k) == (EngineState {
            geometry_polygons: s.flushed_prefix(polys, k).geometry_polygons,
            fifo: FifoState { overflow: s.flushed_prefix(polys, k).fifo.overflow, ..s.fifo },
            ..s
        }),
    decreases k,
{
    if k > 0 {
        lemma_flush_frame(s, polys, k - 1);
    }
}

/// Executing a command leaves the FIFO's queues and the raster side alone.
pub proof fn lemma_dispatch_frame(s: EngineState, op: OpState)
    ensures
        s.dispatched(op).fifo == (FifoState {
            overflow: s.dispatched(op).fifo.overflow,
            ..s.fifo
        }),
        s.dispatched(op).rasterizer == s.rasterizer,
        s.dispatched(op).raster_polygons == s.raster_polygons,
{
    reveal(EngineState::dispatched);
    match command::command_of(op.cmd) {
        None => {},
        Some(cmd) => {
            let t = s.executed(cmd, op.params);
            lemma_engine_after_frame(s, cmd, op.params);
            let polys = t.vertex.polygon_buffer;
            let u = EngineState {
                vertex: VertexView { polygon_buffer: Seq::empty(), ..t.vertex },
                ..t
            };
            lemma_flush_frame(u, polys, polys.len() as int);
        },
    }
}

proof fn lemma_flush_limits(s: EngineState, polys: Seq<PolygonState>, k: int)
    requires
        s.wf(),
    ensures
        s.flushed_prefix(polys, k).wf(),
    decreases k,
{
    if k > 0 {
        lemma_flush_limits(s, polys, k - 1);
        let t = s.flushed_prefix(polys, k - 1);
        let out = placed(
            t.geometry_polygons,
            t.fifo.overflow,
            polys[k - 1],
            t.viewport,
            t.disp_1dot_depth,
        );
        reveal(placed);
        if out.0.len() > t.geometry_polygons.len() {
            assert(out.0.drop_last() =~= t.geometry_polygons);
        }
        assert(s.flushed_prefix(polys, k).fifo.wf());
    }
}

/// Every command keeps the engine well-formed: the geometry buffer never
/// exceeds the polygon and vertex limits.
pub proof fn law_dispatch_keeps_limits(s: EngineState, op: OpState)
    requires
        s.wf(),
    ensures
        s.dispatched(op).wf(),
{
    reveal(EngineState::dispatched);
    match command::command_of(op.cmd) {
        None => {},
        Some(cmd) => {
            let t = s.executed(cmd, op.params);
            lemma_stacks_after_wf(s.stacks, cmd, op.params);
            lemma_lights_after_wf(s.lighting, s.stacks.vector, cmd, op.params);
            lemma_engine_after_frame(s, cmd, op.params);
            assert(t.wf());
            let polys = t.vertex.polygon_buffer;
            let u = EngineState {
                vertex: VertexView { polygon_buffer: Seq::empty(), ..t.vertex },
                ..t
            };
            lemma_flush_limits(u, polys, polys.len() as int);
        },
    }
}

/// After `SWAP_BUFFERS` with a complete polygon list no further command is
/// executed until the swap; with an incomplete list the engine locks for good.
pub proof fn law_swap_stalls(s: EngineState, params: Seq<u32>)
    ensures
        ({
            let after = s.dispatched(
                OpState { cmd: GxCmd::SwapBuffers.code(), params },
            );
            &&& s.vertex.incomplete() ==> after.geometry_locked
            &&& !s.vertex.incomplete() ==> after.swap_pending
            &&& after.run() == after
        }),
{
    reveal(EngineState::dispatched);
    reveal(EngineState::engine_after);
    command::law_opcode_round_trip(GxCmd::SwapBuffers);
    let t = s.executed(GxCmd::SwapBuffers, params);
    let polys = t.vertex.polygon_buffer;
    let u = EngineState {
        vertex: VertexView { polygon_buffer: Seq::empty(), ..t.vertex },
        ..t
    };
    lemma_flush_frame(u, polys, polys.len() as int);
}

/// A locked engine ignores the frame boundary and stays locked.
pub proof fn law_lock_is_permanent(s: EngineState, banks: Option<Seq<BankState>>)
    requires
        s.geometry_locked,
    ensures
        s.swapped(banks) == s,
        s.drained() == s,
{
}

/// A frame boundary without a pending swap changes nothing.
pub proof fn law_no_swap_without_request(s: EngineState, banks: Option<Seq<BankState>>)
    requires
        !s.swap_pending,
    ensures
        s.swapped(banks) == s,
{
}

/// A swap renders exactly the geometry that was collected, with the attributes
/// of the previous swap; commands executed afterwards touch neither the raster
/// buffer nor the framebuffer.
pub proof fn law_swap_renders_collected_geometry(s: EngineState, banks: Option<Seq<BankState>>)
    requires
        s.swap_pending,
        !s.geometry_locked,
    ensures
        s.swapped(banks).raster_polygons == s.geometry_polygons,
        s.swapped(banks).rasterizer == raster::rendered(
            raster::with_swap_attrs(s.rasterizer, s.geometry_swap_attrs),
            s.geometry_polygons,
            banks,
        ),
{
    let t = EngineState {
        raster_polygons: s.geometry_polygons,
        geometry_polygons: Seq::empty(),
        swap_pending: false,
        rasterizer: raster::rendered(
            raster::with_swap_attrs(s.rasterizer, s.geometry_swap_attrs),
            s.geometry_polygons,
            banks,
        ),
        geometry_swap_attrs: s.pending_swap_attrs,
        ..s
    };
    lemma_run_frame(t);
}

proof fn lemma_run_frame(s: EngineState)
    ensures
        s.run().rasterizer == s.rasterizer,
        s.run().raster_polygons == s.raster_polygons,
        !s.run().stalled() ==> s.run().fifo.ready.len() == 0,
    decreases s.fifo.ready.len(),
{
    if !(s.stalled() || s.fifo.ready.len() == 0) {
        let t = EngineState { fifo: s.fifo.popped(), ..s };
        lemma_dispatch_frame(t, s.fifo.ready[0]);
        lemma_run_frame(t.dispatched(s.fifo.ready[0]));
    }
}

/// Draining leaves no ready command behind unless a swap stalls the engine.
pub proof fn law_drain_executes_all(s: EngineState)
    ensures
        !s.drained().stalled() ==> s.drained().fifo.ready.len() == 0,
{
    lemma_run_frame(s);
}

/// Acknowledging the stack error clears `GXSTAT` bit 15 and leaves the matrices
/// alone.
pub proof fn law_gxstat_acknowledge(s: EngineState)
    ensures
        ({
            let after = EngineState { stacks: s.stacks.acknowledged(), ..s };
            &&& after.status_low() < 0x8000
            &&& after.stacks.position == s.stacks.position
            &&& after.stacks.projection == s.stacks.projection
            &&& after.stacks.vector == s.stacks.vector
            &&& after.stacks.texture == s.stacks.texture
        }),
{
}

/// The engine at power-on.
pub open spec fn initial() -> EngineState {
    EngineState {
        stacks: stacks::initial(),
        vertex: vertex::idle(),
        lighting: lighting::unlit(),
        fifo: fifo::empty_fifo(),
        viewport: Viewport { x1: 0, y1: 0, x2: 255, y2: 191 },
        geometry_polygons: Seq::empty(),
        raster_polygons: Seq::empty(),
        swap_pending: false,
        geometry_swap_attrs: 0,
        pending_swap_attrs: 0,
        geometry_locked: false,
        pos_test_result: [0, 0, 0, 0],
        vec_test_result: [0, 0, 0],
        box_test_visible: false,
        test_busy: false,
        disp_1dot_depth: 0,
        rasterizer: raster::blank(),
    }
}

/// The bits of `DISP3DCNT` that a write keeps: 0-11 and 14.
pub open spec fn writable_bits(value: u16) -> u16 {
    (value as int % 0x1000 + if fixed::bit(value as int, 0x4000) { 0x4000int } else { 0 }) as u16
}

fn mask_disp3dcnt(value: u16) -> (r: u16)
    ensures
        r == writable_bits(value),
{
    let low: u16 = value % 0x1000;
    if fixed::has_bit(value as u32, 0x4000) {
        low + 0x4000
    } else {
        low
    }
}

/// Parameter `i`, 0 where it is missing.
fn param_or_zero(params: &Vec<u32>, i: usize) -> (r: u32)
    ensures
        r == param(params@, i as int),
{
    if i < params.len() {
        params[i]
    } else {
        0
    }
}

fn signed_param_or_zero(params: &Vec<u32>, i: usize) -> (r: i32)
    ensures
        r == signed_param(params@, i as int),
{
    fixed::word_as_i32(param_or_zero(params, i))
}

fn params_4x4(params: &Vec<u32>) -> (r: Matrix)
    ensures
        r == matrix_4x4(params@),
{
    let mut words: [i32; 16] = [0; 16];
    for i in 0..16usize
        invariant
            forall|k: int| 0 <= k < i ==> words[k] == signed_param(params@, k),
    {
        words[i] = signed_param_or_zero(params, i);
    }
    assert(words =~= matrix_4x4(params@).m);
    Matrix::load_4x4(&words)
}

fn params_4x3(params: &Vec<u32>) -> (r: Matrix)
    ensures
        r == matrix_4x3(params@),
{
    let mut words: [i32; 12] = [0; 12];
    for i in 0..12usize
        invariant
            forall|k: int| 0 <= k < i ==> words[k] == signed_param(params@, k),
    {
        words[i] = signed_param_or_zero(params, i);
    }
    let r: Matrix = Matrix::load_4x3(&words);
    assert(r.m =~= matrix_4x3(params@).m);
    r
}

fn params_3x3(params: &Vec<u32>) -> (r: Matrix)
    ensures
        r == matrix_3x3(params@),
{
    let mut words: [i32; 9] = [0; 9];
    for i in 0..9usize
        invariant
            forall|k: int| 0 <= k < i ==> words[k] == signed_param(params@, k),
    {
        words[i] = signed_param_or_zero(params, i);
    }
    let r: Matrix = Matrix::load_3x3(&words);
    assert(r.m =~= matrix_3x3(params@).m);
    r
}

/// Execute a matrix command.
fn run_matrix_command(stacks: &mut MatrixStacks, cmd: GxCmd, params: &Vec<u32>)
    requires
        old(stacks)@.wf(),
    ensures
        final(stacks)@ == stacks_after(old(stacks)@, cmd, params@),
{
    proof {
        reveal(stacks_after);
    }
    let p0: u32 = param_or_zero(params, 0);
    match cmd {
        GxCmd::MtxMode => stacks.set_mode(MtxMode::from_bits(p0)),
        GxCmd::MtxPush => stacks.push(),
        GxCmd::MtxPop => stacks.pop(p0),
        GxCmd::MtxStore => stacks.store(p0),
        GxCmd::MtxRestore => stacks.restore(p0),
        GxCmd::MtxIdentity => stacks.identity(),
        GxCmd::MtxLoad4x4 => stacks.load(params_4x4(params)),
        GxCmd::MtxLoad4x3 => stacks.load(params_4x3(params)),
        GxCmd::MtxMult4x4 => stacks.mult(params_4x4(params)),
        GxCmd::MtxMult4x3 => stacks.mult(params_4x3(params)),
        GxCmd::MtxMult3x3 => stacks.mult(params_3x3(params)),
        GxCmd::MtxScale => stacks.scale(
            signed_param_or_zero(params, 0),
            signed_param_or_zero(params, 1),
            signed_param_or_zero(params, 2),
        ),
        GxCmd::MtxTrans => stacks.translate(
            signed_param_or_zero(params, 0),
            signed_param_or_zero(params, 1),
            signed_param_or_zero(params, 2),
        ),
        _ => {},
    }
}

/// Execute a vertex command.
fn run_vertex_command(
    vertex: &mut VertexState,
    stacks: &MatrixStacks,
    cmd: GxCmd,
    params: &Vec<u32>,
)
    ensures
        final(vertex)@ == vertices_after(old(vertex)@, stacks@, cmd, params@),
{
    proof {
        reveal(vertices_after);
    }
    let p0: u32 = param_or_zero(params, 0);
    let last: [i32; 3] = vertex.last_pos;
    match cmd {
        GxCmd::Color => vertex.set_color(p0),
        GxCmd::TexCoord => vertex.set_texcoord(p0, stacks),
        GxCmd::Vtx16 => vertex.submit_vertex(
            decode_vtx16([p0, param_or_zero(params, 1)]),
            stacks,
        ),
        GxCmd::Vtx10 => vertex.submit_vertex(decode_vtx10(p0), stacks),
        GxCmd::VtxXY => vertex.submit_vertex(decode_vtx_pair(p0, last, VtxAxisPair::XY), stacks),
        GxCmd::VtxXZ => vertex.submit_vertex(decode_vtx_pair(p0, last, VtxAxisPair::XZ), stacks),
        GxCmd::VtxYZ => vertex.submit_vertex(decode_vtx_pair(p0, last, VtxAxisPair::YZ), stacks),
        GxCmd::VtxDiff => vertex.submit_vertex(decode_vtx_diff(p0, last), stacks),
        GxCmd::PolygonAttr => vertex.set_polygon_attr(p0),
        GxCmd::TexImageParm => vertex.set_tex_image_param(p0),
        GxCmd::PltBase => vertex.set_palette_base(p0),
        GxCmd::BeginVtxs => vertex.begin(PrimitiveType::from_bits(p0)),
        GxCmd::EndVtxs => vertex.end(),
        _ => {},
    }
}

/// Execute a lighting command.
fn run_lighting_command(
    lights: &mut LightingState,
    vectors: &Matrix,
    cmd: GxCmd,
    params: &Vec<u32>,
)
    requires
        old(lights)@.wf(),
    ensures
        final(lights)@ == lights_after(old(lights)@, *vectors, cmd, params@),
{
    proof {
        reveal(lights_after);
    }
    let p0: u32 = param_or_zero(params, 0);
    match cmd {
        GxCmd::SpeEmi => lights.set_spe_emi(p0),
        GxCmd::LightVector => lights.set_light_vector(p0, vectors),
        GxCmd::LightColor => lights.set_light_color(p0),
        GxCmd::Shininess => lights.set_shininess(params.as_slice()),
        _ => {},
    }
}

impl Engine3d {
    pub fn new() -> (r: Self)
        ensures
            r@ == initial(),
            r@.wf(),
    {
        let r = Engine3d {
            stacks: MatrixStacks::new(),
            vertex: VertexState::new(),
            lighting: LightingState::new(),
            fifo: GxFifo::new(),
            viewport: Viewport::full_screen(),
            geometry_polygons: Vec::new(),
            raster_polygons: Vec::new(),
            swap_pending: false,
            geometry_swap_attrs: 0,
            pending_swap_attrs: 0,
            geometry_locked: false,
            pos_test_result: [0, 0, 0, 0],
            vec_test_result: [0, 0, 0],
            box_test_visible: false,
            test_busy: false,
            disp_1dot_depth: 0,
            rasterizer: Rasterizer::new(),
        };
        assert(r@ =~= initial());
        r
    }

    /// Execute every ready command of the FIFO, until a swap stalls the engine.
    pub fn drain_fifo(&mut self)
        requires
            old(self)@.wf(),
        ensures
            final(self)@ == old(self)@.drained(),
            final(self)@.wf(),
    {
        let ghost start = self@;
        let mut done: bool = false;
        while !done && !self.swap_pending && !self.geometry_locked
            invariant
                self@.wf(),
                self@.run() == start.run(),
                done ==> self@.fifo.ready.len() == 0,
            decreases self@.fifo.ready.len() + if done { 0int } else { 1 },
        {
            let ghost before = self@;
            match self.fifo.pop_op() {
                None => {
                    done = true;
                    assert(self@ =~= before);
                },
                Some(op) => {
                    let ghost popped = EngineState { fifo: before.fifo.popped(), ..before };
                    assert(self@ =~= popped);
                    proof {
                        lemma_dispatch_frame(popped, op@);
                    }
                    self.dispatch(op);
                },
            }
        }
        if !self.swap_pending && !self.geometry_locked {
            self.fifo.reconcile_after_drain();
        }
        assert(self@ =~= start.drained());
    }

    /// Execute one decoded command.
    pub fn dispatch(&mut self, op: GxOp)
        requires
            old(self)@.wf(),
        ensures
            final(self)@ == old(self)@.dispatched(op@),
            final(self)@.wf(),
    {
        let ghost start = self@;
        proof {
            law_dispatch_keeps_limits(self@, op@);
            reveal(EngineState::dispatched);
        }
        let cmd: GxCmd = match GxCmd::from_u8(op.cmd) {
            Some(c) => c,
            None => {
                return ;
            },
        };
        let params: Vec<u32> = op.params;
        let locks: bool = cmd == GxCmd::SwapBuffers && self.vertex.has_incomplete_polygon_list();
        proof {
            lemma_stacks_after_wf(start.stacks, cmd, params@);
            lemma_lights_after_wf(start.lighting, start.stacks.vector, cmd, params@);
            lemma_engine_after_frame(start, cmd, params@);
        }
        match unit_for(cmd) {
            Unit::Stacks => run_matrix_command(&mut self.stacks, cmd, &params),
            Unit::Vertices => run_vertex_command(&mut self.vertex, &self.stacks, cmd, &params),
            Unit::Lights => {
                let vec_mat: Matrix = self.stacks.vector;
                run_lighting_command(&mut self.lighting, &vec_mat, cmd, &params);
            },
            Unit::Engine => self.run_engine_command(cmd, &params),
        }
        assert(self@ =~= start.executed(cmd, op@.params));
        if locks {
            return ;
        }
        // Newly completed polygons go through clipping and the viewport into the
        // geometry buffer.
        self.flush_polygons();
    }

    /// Execute a command that concerns more than one unit, or a test.
    fn run_engine_command(&mut self, cmd: GxCmd, params: &Vec<u32>)
        requires
            old(self)@.lighting.wf(),
        ensures
            final(self)@ == old(self)@.engine_after(cmd, params@),
    {
        proof {
            reveal(EngineState::engine_after);
        }
        let p0: u32 = param_or_zero(params, 0);
        match cmd {
            GxCmd::Normal => self.handle_normal(p0),
            GxCmd::DifAmb => self.handle_dif_amb(p0),
            GxCmd::SwapBuffers => self.handle_swap(p0),
            GxCmd::Viewport => {
                self.viewport = Viewport::from_param(p0);
            },
            GxCmd::BoxTest => self.handle_box_test(params),
            GxCmd::PosTest => self.handle_pos_test(params),
            GxCmd::VecTest => self.handle_vec_test(p0),
            _ => {},
        }
    }

    /// `SWAP_BUFFERS`: stall until the frame boundary, or lock up where the
    /// polygon list is incomplete.
    fn handle_swap(&mut self, param: u32)
        ensures
            final(self)@ == old(self)@.with_swap(param),
    {
        if self.vertex.has_incomplete_polygon_list() {
            self.geometry_locked = true;
        } else {
            self.swap_pending = true;
            self.pending_swap_attrs = param;
            self.vertex.force_end();
        }
    }

    /// `NORMAL`: 10-bit signed (x, y, z) in the low 30 bits. Recalculates the
    /// current vertex color from light and material state.
    fn handle_normal(&mut self, param: u32)
        requires
            old(self)@.lighting.wf(),
        ensures
            final(self)@ == old(self)@.with_normal(param),
    {
        let ghost start = self@;
        let (x, y, z): (i32, i32, i32) = fixed::sign_extend10x3(param);
        let raw: [i32; 3] = [x, y, z];
        let normal: [i32; 3] = [x * 8, y * 8, z * 8];
        assert(raw =~= vertex::fields10(param, 1));
        assert(normal =~= vertex::fields10(param, 8));
        self.vertex.apply_normal_texcoord_transform(raw, &self.stacks);
        let light_enable: u8 = (self.vertex.polygon_attr % 16) as u8;
        let vec_mat: Matrix = self.stacks.vector;
        let color: u16 = compute_vertex_color(&self.lighting, normal, &vec_mat, light_enable);
        self.vertex.current_color = color;
        assert(self@ =~= start.with_normal(param));
    }

    fn handle_dif_amb(&mut self, param: u32)
        ensures
            final(self)@ == old(self)@.with_dif_amb(param),
    {
        let ghost start = self@;
        self.lighting.set_dif_amb(param);
        if fixed::has_bit(param, 0x8000) {
            self.vertex.current_color = (param % 0x8000) as u16;
        }
        assert(self@ =~= start.with_dif_amb(param));
    }

    fn handle_pos_test(&mut self, params: &Vec<u32>)
        ensures
            final(self)@ == old(self)@.with_pos_test(params@),
    {
        let ghost start = self@;
        let pos: [i32; 3] = decode_vtx16([param_or_zero(params, 0), param_or_zero(params, 1)]);
        self.vertex.last_pos = pos;
        self.pos_test_result = self.stacks.clip_matrix().mul_vec4([pos[0], pos[1], pos[2], ONE]);
        self.test_busy = false;
        assert(self@ =~= start.with_pos_test(params@));
    }

    /// `VEC_TEST`: works in matrix mode 2 only.
    pub fn handle_vec_test(&mut self, param: u32)
        ensures
            final(self)@ == old(self)@.with_vec_test(param),
    {
        let ghost start = self@;
        if self.stacks.mode == MtxMode::PosVector {
            let (x, y, z): (i32, i32, i32) = fixed::sign_extend10x3(param);
            let out: [i32; 4] = self.stacks.vector.mul_vec4([x * 8, y * 8, z * 8, 0]);
            self.vec_test_result = [
                format_vec_test_result(out[0]),
                format_vec_test_result(out[1]),
                format_vec_test_result(out[2]),
            ];
        }
        self.test_busy = false;
        assert(self@ =~= start.with_vec_test(param));
    }

    fn handle_box_test(&mut self, params: &Vec<u32>)
        ensures
            final(self)@ == old(self)@.with_box_test(params@),
    {
        let ghost start = self@;
        let (x, y): (i16, i16) = fixed::signed_halves(param_or_zero(params, 0));
        let (z, w): (i16, i16) = fixed::signed_halves(param_or_zero(params, 1));
        let (h, d): (i16, i16) = fixed::signed_halves(param_or_zero(params, 2));
        let clip_mat: Matrix = self.stacks.clip_matrix();
        self.box_test_visible = boxtest::box_intersects_view_volume(
            [x as i32, y as i32, z as i32],
            [w as i32, h as i32, d as i32],
            &clip_mat,
        );
        self.test_busy = false;
        assert(self@ =~= start.with_box_test(params@));
    }

    /// Move newly assembled polygons through clipping and viewport into the
    /// geometry buffer, as far as the per-frame limits allow.
    pub fn flush_polygons(&mut self)
        requires
            old(self)@.wf(),
        ensures
            final(self)@ == old(self)@.flushed(),
            final(self)@.wf(),
    {
        let ghost start = self@;
        let mut polys: Vec<Polygon> = Vec::new();
        std::mem::swap(&mut polys, &mut self.vertex.polygon_buffer);
        let ghost list = start.vertex.polygon_buffer;
        let ghost emptied = EngineState {
            vertex: VertexView { polygon_buffer: Seq::empty(), ..start.vertex },
            ..start
        };
        assert(vertex::states_of(polys@) =~= list);
        assert(self@ =~= emptied);
        for k in 0..polys.len()
            invariant
                vertex::states_of(polys@) == list,
                emptied.wf(),
                self@.wf(),
                self@ == emptied.flushed_prefix(list, k as int),
        {
            proof {
                lemma_flush_limits(emptied, list, k + 1);
            }
            assert(list[k as int] == polys@[k as int]@);
            self.place_polygon(&polys[k]);
        }
        assert(list.len() == polys@.len());
    }

    /// Clip and transform one polygon and add it to the geometry buffer.
    fn place_polygon(&mut self, poly: &Polygon)
        requires
            old(self)@.wf(),
        ensures
            ({
                let out = placed(
                    old(self)@.geometry_polygons,
                    old(self)@.fifo.overflow,
                    poly@,
                    old(self)@.viewport,
                    old(self)@.disp_1dot_depth,
                );
                final(self)@ == (EngineState {
                    geometry_polygons: out.0,
                    fifo: FifoState { overflow: out.1, ..old(self)@.fifo },
                    ..old(self)@
                })
            }),
    {
        let ghost start = self@;
        proof {
            reveal(placed);
        }
        if self.geometry_polygons.len() >= POLYGON_BUF_LIMIT {
            self.fifo.set_overflow(true);
            return ;
        }
        if !fixed::has_bit(poly.attr, 0x1000) && intersects_far_plane(&poly.vertices) {
            return ;
        }
        let clipped: Vec<Vertex> = match clip_polygon(poly.vertices.as_slice()) {
            Some(v) => v,
            None => {
                return ;
            },
        };
        let count: usize = self.geometry_vertex_count();
        if clipped.len() > VERTEX_BUF_LIMIT - count {
            self.fifo.set_overflow(true);
            return ;
        }
        let clipped_poly = Polygon {
            vertices: clipped,
            attr: poly.attr,
            tex_image_param: poly.tex_image_param,
            palette_base: poly.palette_base,
            front_area_negative: poly.front_area_negative,
        };
        assert(clipped_poly@ =~= (PolygonState { vertices: clipped@, ..poly@ }));
        let screen: ScreenPolygon = transform_polygon(&clipped_poly, self.viewport);
        if zero_dot_polygon_is_hidden(&screen, self.disp_1dot_depth) {
            return ;
        }
        self.geometry_polygons.push(screen);
        assert(self@.geometry_polygons =~= start.geometry_polygons.push(screen@));
    }

    /// Frame-boundary swap. Moves the geometry buffer to the raster buffer,
    /// renders it, and resumes the stalled commands.
    ///
    /// `vram` is `None` where no VRAM is at hand: textures are then ignored.
    pub fn swap_buffers(&mut self, vram: Option<&VramRouter>)
        requires
            old(self)@.wf(),
            vram matches Some(v) ==> v.wf(),
        ensures
            final(self)@ == old(self)@.swapped(raster::banks_of(vram)),
            final(self)@.wf(),
    {
        let ghost start = self@;
        if self.geometry_locked || !self.swap_pending {
            return ;
        }
        let mut polys: Vec<ScreenPolygon> = Vec::new();
        std::mem::swap(&mut polys, &mut self.geometry_polygons);
        self.raster_polygons = polys;
        self.swap_pending = false;
        self.rasterizer.set_swap_attrs(self.geometry_swap_attrs);
        assert(self.rasterizer@.wf());
        self.rasterizer.render_frame(self.raster_polygons.as_slice(), vram);
        self.geometry_swap_attrs = self.pending_swap_attrs;
        assert(self@.geometry_polygons =~= Seq::empty());
        assert(self@ =~= (EngineState {
            raster_polygons: start.geometry_polygons,
            geometry_polygons: Seq::empty(),
            swap_pending: false,
            rasterizer: raster::rendered(
                raster::with_swap_attrs(start.rasterizer, start.geometry_swap_attrs),
                start.geometry_polygons,
                raster::banks_of(vram),
            ),
            geometry_swap_attrs: start.pending_swap_attrs,
            ..start
        }));
        self.drain_fifo();
    }

    /// Read a pixel from the 3D framebuffer; 0 beyond it.
    pub fn read_3d_pixel(&self, x: usize, y: usize) -> (r: u16)
        requires
            y * 256 + x <= usize::MAX,
        ensures
            r == if y * 256 + x < self@.rasterizer.framebuffer.len() {
                self@.rasterizer.framebuffer[y * 256 + x]
            } else {
                0
            },
    {
        let idx: usize = y * 256 + x;
        if idx < self.rasterizer.framebuffer.len() {
            self.rasterizer.framebuffer[idx]
        } else {
            0
        }
    }

    /// `DISP3DCNT` as the CPU reads it: bit 13 shows the geometry overflow.
    pub fn read_disp3dcnt(&self) -> (r: u16)
        ensures
            r == self@.rasterizer.disp3dcnt + (if self@.fifo.overflow && !fixed::bit(
                self@.rasterizer.disp3dcnt as int,
                0x2000,
            ) {
                0x2000int
            } else {
                0
            }),
    {
        let value: u16 = self.rasterizer.disp3dcnt;
        if self.fifo.overflow && !fixed::has_bit(value as u32, 0x2000) {
            value + 0x2000
        } else {
            value
        }
    }

    /// Write `DISP3DCNT`: bits 0-11 and 14 are kept; bit 13 acknowledges the
    /// geometry overflow.
    pub fn write_disp3dcnt(&mut self, value: u16)
        ensures
            final(self)@ == (EngineState {
                rasterizer: RasterState {
                    disp3dcnt: writable_bits(value),
                    ..old(self)@.rasterizer
                },
                fifo: FifoState {
                    overflow: old(self)@.fifo.overflow && !fixed::bit(value as int, 0x2000),
                    ..old(self)@.fifo
                },
                ..old(self)@
            }),
    {
        self.rasterizer.set_disp3dcnt(mask_disp3dcnt(value));
        if fixed::has_bit(value as u32, 0x2000) {
            self.fifo.set_overflow(false);
        }
    }

    pub fn gxstat_low(&self) -> (r: u16)
        ensures
            r == self@.status_low(),
    {
        let mut v: u16 = 0;
        if self.test_busy {
            v = v + 1;
        }
        if self.box_test_visible {
            v = v + 2;
        }
        v = v + (self.stacks.position_sp % 32) as u16 * 0x100;
        if self.stacks.projection_sp != 0 {
            v = v + 0x2000;
        }
        if self.stacks.overflow {
            v = v + 0x8000;
        }
        v
    }

    pub fn gxstat_high(&self) -> (r: u16)
        ensures
            r == self@.fifo.status(self@.busy()),
    {
        self.fifo.gxstat_high_bits(self.geometry_busy())
    }

    pub fn gxstat(&self) -> (r: u32)
        ensures
            r == self@.status_low() + 0x1_0000 * self@.fifo.status(self@.busy()),
    {
        self.gxstat_low() as u32 + self.gxstat_high() as u32 * 0x1_0000
    }

    /// Write `GXSTAT`: bit 15 acknowledges the stack error, bits 30-31 set the
    /// FIFO IRQ mode.
    pub fn write_gxstat(&mut self, value: u32)
        ensures
            final(self)@ == (EngineState {
                stacks: if fixed::bit(value as int, 0x8000) {
                    old(self)@.stacks.acknowledged()
                } else {
                    old(self)@.stacks
                },
                fifo: FifoState {
                    irq_mode: (value as int / 0x4000_0000) as u8,
                    ..old(self)@.fifo
                },
                ..old(self)@
            }),
    {
        self.write_gxstat_low((value % 0x1_0000) as u16);
        self.write_gxstat_high((value / 0x1_0000) as u16);
    }

    pub fn write_gxstat_low(&mut self, value: u16)
        ensures
            final(self)@ == (EngineState {
                stacks: if fixed::bit(value as int, 0x8000) {
                    old(self)@.stacks.acknowledged()
                } else {
                    old(self)@.stacks
                },
                ..old(self)@
            }),
    {
        if fixed::has_bit(value as u32, 0x8000) {
            self.stacks.clear_overflow_error();
        }
    }

    pub fn write_gxstat_high(&mut self, value: u16)
        ensures
            final(self)@ == (EngineState {
                fifo: FifoState { irq_mode: (value as int / 0x4000) as u8, ..old(self)@.fifo },
                ..old(self)@
            }),
    {
        self.fifo.set_irq_mode((value / 0x4000) as u8);
    }

    /// `RAM_COUNT`: polygons in the low half, vertices in the high half.
    pub fn ram_count(&self) -> (r: u32)
        requires
            self@.wf(),
        ensures
            r == self@.geometry_polygons.len() + 0x1_0000 * vertex_total(self@.geometry_polygons),
    {
        self.geometry_polygons.len() as u32 + self.geometry_vertex_count() as u32 * 0x1_0000
    }

    /// Entry `index` of the clip matrix; 0 while the engine is busy and beyond
    /// the matrix.
    pub fn read_clip_matrix_word(&self, index: usize) -> (r: u32)
        ensures
            r == if self@.busy() || index >= 16 {
                0
            } else {
                fixed::word_of(self@.stacks.clip().m[index as int])
            },
    {
        if self.geometry_busy() || index >= 16 {
            return 0;
        }
        fixed::i32_as_word(self.stacks.clip_matrix().m[index])
    }

    /// Entry `index` of the upper left 3x3 part of the vector matrix; 0 while
    /// the engine is busy and beyond it.
    pub fn read_direction_matrix_word(&self, index: usize) -> (r: u32)
        ensures
            r == if self@.busy() || index >= 9 {
                0
            } else {
                fixed::word_of(self@.stacks.vector.entry(index as int / 3, index as int % 3))
            },
    {
        if self.geometry_busy() || index >= 9 {
            return 0;
        }
        fixed::i32_as_word(self.stacks.vector.at(index / 3, index % 3))
    }

    pub fn read_pos_test_word(&self, index: usize) -> (r: u32)
        ensures
            r == if index < 4 {
                fixed::word_of(self@.pos_test_result[index as int])
            } else {
                0
            },
    {
        if index < 4 {
            fixed::i32_as_word(self.pos_test_result[index])
        } else {
            0
        }
    }

    pub fn read_vec_test_halfword(&self, index: usize) -> (r: u16)
        ensures
            r == if index < 3 {
                fixed::halfword_of(self@.vec_test_result[index as int])
            } else {
                0
            },
    {
        if index < 3 {
            fixed::i16_as_halfword(self.vec_test_result[index])
        } else {
            0
        }
    }

    fn geometry_busy(&self) -> (r: bool)
        ensures
            r == self@.busy(),
    {
        self.geometry_locked || self.swap_pending || !self.fifo.is_empty()
            || self.fifo.ready.len() > 0 || self.vertex.polygon_buffer.len() > 0
    }

    /// Vertices in the geometry buffer.
    pub fn geometry_vertex_count(&self) -> (r: usize)
        requires
            vertex_total(self@.geometry_polygons) <= VERTEX_BUF_LIMIT,
        ensures
            r == vertex_total(self@.geometry_polygons),
    {
        let ghost polys = self@.geometry_polygons;
        let mut total: usize = 0;
        for i in 0..self.geometry_polygons.len()
            invariant
                polys == self@.geometry_polygons,
                vertex_total(polys) <= VERTEX_BUF_LIMIT,
                total == vertex_total(polys.take(i as int)),
        {
            proof {
                lemma_vertex_total_prefix(polys, i + 1);
                assert(polys.take(i + 1).drop_last() =~= polys.take(i as int));
                assert(polys[i as int] == self.geometry_polygons@[i as int]@);
            }
            total = total + self.geometry_polygons[i].vertices.len();
        }
        assert(polys.take(polys.len() as int) =~= polys);
        total
    }
}

proof fn lemma_vertex_total_prefix(polys: Seq<ScreenPolygonState>, n: int)
    requires
        0 <= n <= polys.len(),
    ensures
        0 <= vertex_total(polys.take(n)) <= vertex_total(polys),
    decreases polys.len() - n, n,
{
    if n < polys.len() {
        lemma_vertex_total_prefix(polys, n + 1);
        assert(polys.take(n + 1).drop_last() =~= polys.take(n));
        lemma_vertex_total_non_negative(polys.take(n));
    } else {
        assert(polys.take(n) =~= polys);
        lemma_vertex_total_non_negative(polys);
    }
}

proof fn lemma_vertex_total_non_negative(polys: Seq<ScreenPolygonState>)
    ensures
        vertex_total(polys) >= 0,
    decreases polys.len(),
{
    if polys.len() > 0 {
        lemma_vertex_total_non_negative(polys.drop_last());
    }
}

/// The value that VEC_TEST shows of a component.
pub fn format_vec_test_result(v: i32) -> (r: i16)
    ensures
        r == vec_test_value(v),
{
    let raw13: u32 = fixed::i32_as_word(v) % 0x2000;
    if raw13 >= 0x1000 {
        (raw13 as i32 - 0x2000) as i16
    } else {
        raw13 as i16
    }
}

fn intersects_far_plane(vertices: &Vec<Vertex>) -> (r: bool)
    ensures
        r == crosses_far_plane(vertices@),
{
    for i in 0..vertices.len()
        invariant
            forall|k: int| 0 <= k < i ==> (#[trigger] vertices@[k]).clip[2] <= vertices@[k].clip[3],
    {
        if vertices[i].clip[2] > vertices[i].clip[3] {
            assert(vertices@[i as int].clip[2] > vertices@[i as int].clip[3]);
            return true;
        }
    }
    false
}

fn zero_dot_polygon_is_hidden(poly: &ScreenPolygon, disp_1dot_depth: u16) -> (r: bool)
    ensures
        r == hidden_dot(poly@, disp_1dot_depth),
{
    if fixed::has_bit(poly.attr, 0x2000) || poly.vertices.len() == 0 {
        return false;
    }
    let first_x: i64 = fixed::shr8(poly.vertices[0].screen_x as i64);
    let first_y: i64 = fixed::shr8(poly.vertices[0].screen_y as i64);
    let boundary_w: i32 = (disp_1dot_depth % 0x8000) as i32 * 512;
    for i in 0..poly.vertices.len()
        invariant
            poly.vertices@.len() > 0,
            first_x == poly@.vertices[0].screen_x as int / 256,
            first_y == poly@.vertices[0].screen_y as int / 256,
            boundary_w == disp_1dot_depth as int % 0x8000 * 512,
            !fixed::bit(poly.attr as int, 0x2000),
            forall|k: int|
                0 <= k < i ==> (#[trigger] poly@.vertices[k]).screen_x as int / 256 == first_x
                    && poly@.vertices[k].screen_y as int / 256 == first_y && poly@.vertices[k].w
                    > boundary_w,
    {
        let v: &ScreenVertex = &poly.vertices[i];
        assert(*v == poly@.vertices[i as int]);
        if fixed::shr8(v.screen_x as i64) != first_x || fixed::shr8(v.screen_y as i64) != first_y
            || v.w <= boundary_w {
            return false;
        }
    }
    true
}

impl Default for Engine3d {
    fn default() -> (r: Self)
        ensures
            r@ == initial(),
            r@.wf(),
    {
        Self::new()
    }
}

/// Matrix words come row by row: word `4 * row + col` of a full matrix, and word
/// `3 * row + col` of one whose last column is that of the identity, is the entry in
/// that row and column, as a signed number.
pub proof fn law_matrix_words(s: StacksState, p: Seq<u32>, row: int, col: int)
    requires
        p.len() == 16,
        0 <= row < 4,
        0 <= col < 4,
    ensures
        ({
            let full = stacks_after(s, GxCmd::MtxLoad4x4, p).current();
            let part = stacks_after(s, GxCmd::MtxLoad4x3, p).current();
            &&& full.entry(row, col) == fixed::wrap_i32(p[4 * row + col] as int)
            &&& col < 3 ==> part.entry(row, col) == fixed::wrap_i32(p[3 * row + col] as int)
            &&& col == 3 ==> part.entry(row, col) == if row == 3 { 4096i32 } else { 0 }
        }),
{
    reveal(stacks_after);
    lemma_rows(row, col);
}

proof fn lemma_rows(row: int, col: int)
    requires
        0 <= row < 4,
        0 <= col < 4,
    ensures
        row == 0 || row == 1 || row == 2 || row == 3,
        col == 0 || col == 1 || col == 2 || col == 3,
{
}

/// On an identity matrix the multiplying commands leave the matrix of their words:
/// rows of four, rows of three, rows of three for directions alone, a translation in
/// the last row, a scale on the diagonal.
#[verifier::spinoff_prover]
#[verifier::rlimit(60)]
pub proof fn law_matrix_commands_on_identity(s: StacksState, p: Seq<u32>, row: int, col: int)
    requires
        p.len() == 16,
        s.projection == matrix::identity(),
        s.position == matrix::identity(),
        s.vector == matrix::identity(),
        s.texture == matrix::identity(),
        0 <= row < 3,
        0 <= col < 3,
    ensures
        ({
            let m4 = stacks_after(s, GxCmd::MtxMult4x4, p).current();
            let m3 = stacks_after(s, GxCmd::MtxMult4x3, p).current();
            let m9 = stacks_after(s, GxCmd::MtxMult3x3, p).current();
            let t = stacks_after(s, GxCmd::MtxTrans, p).current();
            let z = stacks_after(s, GxCmd::MtxScale, p).current();
            let diagonal = row == col;
            &&& m4.entry(row, col) == fixed::wrap_i32(p[4 * row + col] as int)
            &&& m3.entry(row, col) == fixed::wrap_i32(p[3 * row + col] as int)
            &&& m9.entry(row, col) == fixed::wrap_i32(p[3 * row + col] as int)
            &&& m3.entry(3, col) == fixed::wrap_i32(p[9 + col] as int)
            &&& m9.entry(3, col) == 0
            &&& t.entry(3, col) == fixed::wrap_i32(p[col] as int)
            &&& t.entry(row, col) == if diagonal { 4096i32 } else { 0 }
            &&& z.entry(row, col) == if diagonal { fixed::wrap_i32(p[col] as int) } else { 0 }
            &&& z.entry(3, col) == 0
            &&& stacks_after(s, GxCmd::MtxIdentity, p).current() == matrix::identity()
        }),
{
    lemma_multiplies(s, p);
    lemma_translates(s, p);
    lemma_scales(s, p);
    lemma_matrix_entries(p, row, col);
}

proof fn lemma_multiplies(s: StacksState, p: Seq<u32>)
    requires
        s.projection == matrix::identity(),
        s.position == matrix::identity(),
        s.vector == matrix::identity(),
        s.texture == matrix::identity(),
    ensures
        stacks_after(s, GxCmd::MtxMult4x4, p).current() == matrix_4x4(p),
        stacks_after(s, GxCmd::MtxMult4x3, p).current() == matrix_4x3(p),
        stacks_after(s, GxCmd::MtxMult3x3, p).current() == matrix_3x3(p),
        stacks_after(s, GxCmd::MtxIdentity, p).current() == matrix::identity(),
{
    reveal(stacks_after);
    stacks::law_multiplying_identity(s, matrix_4x4(p));
    stacks::law_multiplying_identity(s, matrix_4x3(p));
    stacks::law_multiplying_identity(s, matrix_3x3(p));
}

proof fn lemma_translates(s: StacksState, p: Seq<u32>)
    requires
        s.projection == matrix::identity(),
        s.position == matrix::identity(),
        s.vector == matrix::identity(),
        s.texture == matrix::identity(),
    ensures
        stacks_after(s, GxCmd::MtxTrans, p).current() == matrix::translation(
            signed_param(p, 0),
            signed_param(p, 1),
            signed_param(p, 2),
        ),
{
    reveal(stacks_after);
    let (x, y, z) = (signed_param(p, 0), signed_param(p, 1), signed_param(p, 2));
    stacks::law_multiplying_identity(s, matrix::translation(x, y, z));
}

#[verifier::spinoff_prover]
#[verifier::rlimit(80)]
proof fn lemma_scales(s: StacksState, p: Seq<u32>)
    requires
        s.projection == matrix::identity(),
        s.position == matrix::identity(),
        s.vector == matrix::identity(),
        s.texture == matrix::identity(),
    ensures
        stacks_after(s, GxCmd::MtxScale, p).current() == matrix::scaling(
            signed_param(p, 0),
            signed_param(p, 1),
            signed_param(p, 2),
        ),
{
    reveal(stacks_after);
    let (x, y, z) = (signed_param(p, 0), signed_param(p, 1), signed_param(p, 2));
    stacks::law_multiplying_identity(s, matrix::scaling(x, y, z));
    stacks::law_scaling_keeps_vectors(s, x, y, z);
}

proof fn lemma_matrix_entries(p: Seq<u32>, row: int, col: int)
    requires
        p.len() == 16,
        0 <= row < 3,
        0 <= col < 3,
    ensures
        ({
            let (x, y, z) = (signed_param(p, 0), signed_param(p, 1), signed_param(p, 2));
            let t = matrix::translation(x, y, z);
            let c = matrix::scaling(x, y, z);
            let diagonal = row == col;
            &&& matrix_4x4(p).entry(row, col) == fixed::wrap_i32(p[4 * row + col] as int)
            &&& matrix_4x3(p).entry(row, col) == fixed::wrap_i32(p[3 * row + col] as int)
            &&& matrix_3x3(p).entry(row, col) == fixed::wrap_i32(p[3 * row + col] as int)
            &&& matrix_4x3(p).entry(3, col) == fixed::wrap_i32(p[9 + col] as int)
            &&& matrix_3x3(p).entry(3, col) == 0
            &&& t.entry(3, col) == fixed::wrap_i32(p[col] as int)
            &&& t.entry(row, col) == if diagonal { 4096i32 } else { 0 }
            &&& c.entry(row, col) == if diagonal { fixed::wrap_i32(p[col] as int) } else { 0 }
            &&& c.entry(3, col) == 0
        }),
{
    lemma_rows(row, col);
}

/// `POS_TEST` shows a position times the clip matrix and remembers the position; with
/// identity matrices it shows the position itself, with 1.0 for W.
pub proof fn law_position_test(s: EngineState, x: i16, y: i16, z: i16, rest: i16)
    ensures
        ({
            let p = seq![vertex::halves(x, y), vertex::halves(z, rest)];
            let after = s.executed(GxCmd::PosTest, p);
            &&& after.vertex.last_pos == [x as i32, y as i32, z as i32]
            &&& after.pos_test_result == matrix::transformed(
                [x as i32, y as i32, z as i32, 4096i32],
                s.stacks.clip(),
            )
            &&& !after.test_busy
            &&& s.stacks.position == matrix::identity() && s.stacks.projection
                == matrix::identity() ==> after.pos_test_result == [
                x as i32,
                y as i32,
                z as i32,
                4096i32,
            ]
        }),
{
    reveal(EngineState::engine_after);
    vertex::law_vertex_16_fields(x, y, z, rest);
    let v = [x as i32, y as i32, z as i32, 4096i32];
    let p = seq![vertex::halves(x, y), vertex::halves(z, rest)];
    assert(param(p, 0) == vertex::halves(x, y) && param(p, 1) == vertex::halves(z, rest));
    assert([x as i32, y as i32, z as i32, ONE] =~= v);
    if s.stacks.position == matrix::identity() && s.stacks.projection == matrix::identity() {
        stacks::law_clip_matrix_of_identity(s.stacks);
        matrix::law_identity_transform(v);
    }
}

/// `VEC_TEST` shows a direction times the vector matrix, in matrix mode 2 only: three
/// signed fields of 10 bits with 9 fractional ones, shown with 12.
#[verifier::spinoff_prover]
#[verifier::rlimit(60)]
pub proof fn law_vector_test(s: EngineState, x: int, y: int, z: int, rest: int)
    requires
        -512 <= x < 512,
        -512 <= y < 512,
        -512 <= z < 512,
        0 <= rest < 4,
    ensures
        ({
            let after = s.executed(GxCmd::VecTest, seq![vertex::tens(x, y, z, rest)]);
            &&& s.stacks.mode != MtxMode::PosVector ==> after.vec_test_result == s.vec_test_result
            &&& !after.test_busy
            &&& s.stacks.mode == MtxMode::PosVector && s.stacks.vector == matrix::identity() ==> {
                &&& after.vec_test_result[0] == 8 * x
                &&& after.vec_test_result[1] == 8 * y
                &&& after.vec_test_result[2] == 8 * z
            }
        }),
{
    reveal(EngineState::engine_after);
    vertex::lemma_tens(x, y, z, rest, 8);
    let w = vertex::tens(x, y, z, rest);
    let v = vertex::fields10(w, 8);
    assert(param(seq![w], 0) == w);
    if s.stacks.vector == matrix::identity() {
        let u = [v[0], v[1], v[2], 0i32];
        matrix::law_identity_transform(u);
        assert(matrix::transformed(u, s.stacks.vector) == u);
        law_vector_test_range(v[0], 0);
        law_vector_test_range(v[1], 0);
        law_vector_test_range(v[2], 0);
    }
}

/// What `VEC_TEST` shows of a component has 13 bits: it is the component itself from
/// -1.0 up to just below 1.0, and repeats every 2.0.
pub proof fn law_vector_test_range(v: i32, turns: int)
    requires
        -0x1000 <= v + turns * 0x2000 < 0x1000,
    ensures
        vec_test_value(v) == v + turns * 0x2000,
{
    let m = v as int % 0x2000;
    let x = v + turns * 0x2000;
    assert(x % 0x2000 == m) by {
        vstd::arithmetic::div_mod::lemma_mod_multiples_vanish(turns, v as int, 0x2000);
        assert(0x2000 * turns + v == x);
    }
}

/// `BOX_TEST` takes x, y, z, width, height and depth, each a signed half, in this order.
pub proof fn law_box_test_fields(
    s: EngineState,
    x: i16,
    y: i16,
    z: i16,
    w: i16,
    h: i16,
    d: i16,
)
    ensures
        ({
            let p = seq![vertex::halves(x, y), vertex::halves(z, w), vertex::halves(h, d)];
            let after = s.executed(GxCmd::BoxTest, p);
            &&& after.box_test_visible == boxtest::visible(
                [x as i32, y as i32, z as i32],
                [w as i32, h as i32, d as i32],
                s.stacks.clip(),
            )
            &&& !after.test_busy
        }),
{
    reveal(EngineState::engine_after);
    vertex::lemma_halves(x, y);
    vertex::lemma_halves(z, w);
    vertex::lemma_halves(h, d);
    let p = seq![vertex::halves(x, y), vertex::halves(z, w), vertex::halves(h, d)];
    assert(param(p, 0) == p[0] && param(p, 1) == p[1] && param(p, 2) == p[2]);
}

/// `NORMAL` lights the current color: a direction of three signed 10-bit fields, with 9
/// fractional bits, and the lights that the lowest four bits of the polygon
/// attributes enable. `DIF_AMB` sets the color where bit 15 asks for it.
pub proof fn law_color_of_normal(s: EngineState, x: int, y: int, z: int, rest: int, word: u32)
    requires
        -512 <= x < 512,
        -512 <= y < 512,
        -512 <= z < 512,
        0 <= rest < 4,
    ensures
        ({
            let after = s.executed(GxCmd::Normal, seq![vertex::tens(x, y, z, rest)]);
            let set = s.executed(GxCmd::DifAmb, seq![word]);
            &&& after.vertex.current_color == s.lighting.lit(
                [(8 * x) as i32, (8 * y) as i32, (8 * z) as i32],
                s.stacks.vector,
                (s.vertex.polygon_attr as int % 16) as u8,
            )
            &&& after.lighting == s.lighting
            &&& set.vertex.current_color == if word / 0x8000 % 2 == 1 {
                (word % 0x8000) as u16
            } else {
                s.vertex.current_color
            }
        }),
{
    reveal(EngineState::engine_after);
    vertex::lemma_tens(x, y, z, rest, 8);
    let w = vertex::tens(x, y, z, rest);
    assert(param(seq![w], 0) == w);
    assert(param(seq![word], 0) == word);
    assert(vertex::fields10(w, 8) =~= [(8 * x) as i32, (8 * y) as i32, (8 * z) as i32]);
}

/// The commands that set registers of the vertex pipeline: 15 bits of color, 13 bits of
/// palette base, the texture parameters at once and the polygon attributes at the next
/// list.
pub proof fn law_vertex_registers(s: EngineState, word: u32)
    ensures
        ({
            let p = seq![word];
            let v = s.vertex;
            let color = s.executed(GxCmd::Color, p).vertex;
            let base = s.executed(GxCmd::PltBase, p).vertex;
            let image = s.executed(GxCmd::TexImageParm, p).vertex;
            let attr = s.executed(GxCmd::PolygonAttr, p).vertex;
            &&& color == (VertexView { current_color: (word % 0x8000) as u16, ..v })
            &&& base == (VertexView { palette_base: (word % 0x2000) as u16, ..v })
            &&& image == (VertexView { tex_image_param: word, ..v })
            &&& attr.polygon_attr == v.polygon_attr
            &&& attr.pending_polygon_attr == Some(word)
            &&& s.executed(GxCmd::BeginVtxs, p).vertex.primitive == Some(
                if word % 4 == 0 {
                    PrimitiveType::Triangles
                } else if word % 4 == 1 {
                    PrimitiveType::Quads
                } else if word % 4 == 2 {
                    PrimitiveType::TriangleStrip
                } else {
                    PrimitiveType::QuadStrip
                },
            )
        }),
{
    reveal(vertices_after);
    assert(param(seq![word], 0) == word);
}

/// Which position each vertex command submits.
pub proof fn law_vertex_commands(s: EngineState, a: u32, b: u32)
    ensures
        ({
            let p = seq![a, b];
            let v = s.vertex;
            let last = v.last_pos;
            let lo = fixed::low_half(a) as i32;
            let hi = fixed::high_half(a) as i32;
            &&& s.executed(GxCmd::Vtx16, p).vertex == v.submitted(
                [lo, hi, fixed::low_half(b) as i32],
                s.stacks,
            )
            &&& s.executed(GxCmd::VtxXY, p).vertex == v.submitted([lo, hi, last[2]], s.stacks)
            &&& s.executed(GxCmd::VtxXZ, p).vertex == v.submitted([lo, last[1], hi], s.stacks)
            &&& s.executed(GxCmd::VtxYZ, p).vertex == v.submitted([last[0], lo, hi], s.stacks)
            &&& s.executed(GxCmd::Vtx10, p).vertex == v.submitted(
                vertex::fields10(a, 64),
                s.stacks,
            )
            &&& s.executed(GxCmd::VtxDiff, p).vertex == v.submitted(
                vertex::position_diff(a, last),
                s.stacks,
            )
        }),
{
    reveal(vertices_after);
    let p = seq![a, b];
    assert(param(p, 0) == a && param(p, 1) == b);
}

/// `SWAP_BUFFERS` waits for the frame to end and closes the list; with an unfinished
/// polygon it locks the engine instead.
pub proof fn law_swap_command(s: EngineState, word: u32)
    ensures
        ({
            let after = s.executed(GxCmd::SwapBuffers, seq![word]);
            &&& s.vertex.incomplete() ==> after.geometry_locked && after.swap_pending
                == s.swap_pending
            &&& !s.vertex.incomplete() ==> after.swap_pending && after.pending_swap_attrs == word
                && !after.vertex.list_active && after.geometry_locked == s.geometry_locked
        }),
{
    reveal(EngineState::engine_after);
    assert(param(seq![word], 0) == word);
}

/// A polygon reaches the geometry buffer as its clipped outline on the screen, at the
/// end; one that crosses the far plane needs attribute bit 12, and what is wholly
/// outside the view is dropped.
pub proof fn law_polygon_placement(
    g: Seq<ScreenPolygonState>,
    overflow: bool,
    p: PolygonState,
    vp: Viewport,
    depth: u16,
)
    requires
        g.len() < POLYGON_BUF_LIMIT,
    ensures
        ({
            let out = placed(g, overflow, p, vp, depth);
            let far = exists|i: int|
                0 <= i < p.vertices.len() && (#[trigger] p.vertices[i]).clip[2]
                    > p.vertices[i].clip[3];
            &&& p.attr as int / 0x1000 % 2 == 0 && far ==> out == (g, overflow)
            &&& clip::clipped(p.vertices) is None ==> out == (g, overflow)
            &&& (p.attr as int / 0x1000 % 2 == 1 || !far) && p.attr as int / 0x2000 % 2 == 1 ==> (
            clip::clipped(p.vertices) matches Some(vs) ==> vertex_total(g) + vs.len()
                <= VERTEX_BUF_LIMIT ==> out == (
                g.push(viewport::polygon_on_screen(PolygonState { vertices: vs, ..p }, vp)),
                overflow,
            ))
        }),
{
    reveal(placed);
}

/// A polygon that fits in one pixel is hidden beyond the cutoff depth, in units of 512,
/// unless attribute bit 13 shows it; larger or nearer ones never are.
pub proof fn law_distant_dots(p: ScreenPolygonState, cutoff: u16)
    requires
        p.vertices.len() == 3,
    ensures
        ({
            let (a, b, c) = (p.vertices[0], p.vertices[1], p.vertices[2]);
            let limit = cutoff as int % 0x8000 * 512;
            let one_pixel = a.screen_x as int / 256 == b.screen_x as int / 256 && b.screen_x as int
                / 256 == c.screen_x as int / 256 && a.screen_y as int / 256 == b.screen_y as int
                / 256 && b.screen_y as int / 256 == c.screen_y as int / 256;
            let distant = a.w > limit && b.w > limit && c.w > limit;
            hidden_dot(p, cutoff) == (one_pixel && distant && p.attr as int / 0x2000 % 2 == 0)
        }),
{
    let vs = p.vertices;
    assert(vs[0] == p.vertices[0] && vs[1] == p.vertices[1] && vs[2] == p.vertices[2]);
}

/// The lower half of `GXSTAT`: bit 0 busy testing, bit 1 box visible, bits 8 to 12 the
/// position stack level, bit 13 the projection stack level, bit 15 the stack error.
pub proof fn law_status_fields(s: EngineState)
    ensures
        ({
            let v = s.status_low();
            &&& (v % 2 == 1) == s.test_busy
            &&& (v / 2 % 2 == 1) == s.box_test_visible
            &&& v / 0x100 % 32 == s.stacks.position_sp as int % 32
            &&& (v / 0x2000 % 2 == 1) == (s.stacks.projection_sp != 0)
            &&& (v / 0x8000 == 1) == s.stacks.overflow
            &&& v / 4 % 64 == 0
            &&& v / 0x4000 % 2 == 0
        }),
{
    let a: int = if s.test_busy { 1 } else { 0 };
    let b: int = if s.box_test_visible { 1 } else { 0 };
    let l = s.stacks.position_sp as int % 32;
    let c: int = if s.stacks.projection_sp != 0 { 1 } else { 0 };
    let d: int = if s.stacks.overflow { 1 } else { 0 };
    let v = s.status_low();
    assert(v == a + 2 * b + 0x100 * l + 0x2000 * c + 0x8000 * d);
    assert(v / 2 == b + 0x80 * l + 0x1000 * c + 0x4000 * d);
    assert(v / 4 == 0x40 * l + 0x800 * c + 0x2000 * d);
    assert(v / 0x100 == l + 0x20 * c + 0x80 * d);
    assert(v / 0x2000 == c + 4 * d);
    assert(v / 0x4000 == 2 * d);
    assert(v / 0x8000 == d);
}

/// After a swap the geometry buffer is empty and the engine runs on; the attributes that
/// came with the swap command hold for what is collected from then on, those of the
/// swap before for what was just rendered.
pub proof fn law_swap_latches_attributes(s: EngineState, banks: Option<Seq<BankState>>)
    requires
        s.swap_pending,
        !s.geometry_locked,
        s.fifo.ready.len() == 0,
    ensures
        s.swapped(banks).geometry_polygons.len() == 0,
        !s.swapped(banks).swap_pending,
        s.swapped(banks).geometry_swap_attrs == s.pending_swap_attrs,
        s.swapped(banks).vertex == s.vertex,
        s.swapped(banks).stacks == s.stacks,
{
}

/// `DISP3DCNT` keeps bits 0 to 11 and bit 14 of what is written.
pub proof fn law_control_bits_kept(value: u16)
    ensures
        writable_bits(value) % 0x1000 == value % 0x1000,
        writable_bits(value) / 0x1000 % 4 == 0,
        writable_bits(value) / 0x4000 == value / 0x4000 % 2,
{
}

/// A polygon adds its vertices to the vertex count.
pub proof fn law_vertex_count_adds_up(polys: Seq<ScreenPolygonState>, p: ScreenPolygonState)
    ensures
        vertex_total(polys.push(p)) == vertex_total(polys) + p.vertices.len(),
        vertex_total(Seq::empty()) == 0,
{
    assert(polys.push(p).drop_last() =~= polys);
}

/// The engine is busy while it is locked, waits for a swap, or has words, commands or
/// polygons to work on.
pub proof fn law_busy_conditions(s: EngineState)
    ensures
        s.geometry_locked ==> s.busy(),
        s.swap_pending ==> s.busy(),
        s.fifo.words.len() > 0 ==> s.busy(),
        s.fifo.ready.len() > 0 ==> s.busy(),
        s.vertex.polygon_buffer.len() > 0 ==> s.busy(),
        !s.geometry_locked && !s.swap_pending && s.fifo.words.len() == 0 && s.fifo.ready.len() == 0
            && s.vertex.polygon_buffer.len() == 0 ==> !s.busy(),
{
}

} // verus!
