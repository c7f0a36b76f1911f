//! Matrix stacks driven by `MTX_MODE` and the `MTX_*` GX commands.
//!
//! There are four matrices selected by `MTX_MODE`:
//!
//! | Mode | Stack | Depth | Notes |
//! |---|---|---:|---|
//! | 0 | Projection | 1 | A single saved slot with a 1-bit pointer. |
//! | 1 | Position | 32 | Model and view combined. Stack operations also move Vector. |
//! | 2 | Position + Vector | 32 | The position matrix and a direction-only matrix for lighting, kept lockstep. |
//! | 3 | Texture | 1 | Transforms per-vertex texture coordinates. |
//!
//! Overflow and underflow set a sticky flag that `GXSTAT` shows.

use vstd::prelude::*;
use super::matrix;
use super::matrix::Matrix;

verus! {

#[derive(Debug, Clone, Copy, PartialEq, Eq, Structural)]
pub enum MtxMode {
    Projection,
    Position,
    PosVector,
    Texture,
}

/// The mode that the low two bits of a parameter select.
pub open spec fn mode_of(bits: u32) -> MtxMode {
    if bits % 4 == 0 {
        MtxMode::Projection
    } else if bits % 4 == 1 {
        MtxMode::Position
    } else if bits % 4 == 2 {
        MtxMode::PosVector
    } else {
        MtxMode::Texture
    }
}

impl MtxMode {
    pub fn from_bits(bits: u32) -> (r: Self)
        ensures
            r == mode_of(bits),
    {
        match bits % 4 {
            0 => MtxMode::Projection,
            1 => MtxMode::Position,
            2 => MtxMode::PosVector,
            _ => MtxMode::Texture,
        }
    }
}

/// All four matrix stacks and the current matrix of each.
#[derive(Debug, Clone)]
pub struct MatrixStacks {
    pub mode: MtxMode,
    /// Currently active matrices.
    pub projection: Matrix,
    pub position: Matrix,
    pub vector: Matrix,
    pub texture: Matrix,
    /// Saved projection matrix (1-deep) and its 1-bit stack pointer.
    /// `MTX_STORE`/`MTX_RESTORE` access the saved slot without moving the
    /// pointer; only `MTX_PUSH`/`MTX_POP` change it.
    pub projection_saved: Matrix,
    pub projection_sp: u8,
    /// 32 entries for the position/vector pair.
    pub position_stack: Vec<Matrix>,
    pub vector_stack: Vec<Matrix>,
    /// 6-bit stack pointer of the position pair. GXSTAT exposes the lower five
    /// bits; entries 32..63 mirror 0..31 and set the overflow flag.
    pub position_sp: u8,
    /// Saved texture matrix (1-deep), and whether anything was saved there.
    pub texture_saved: Matrix,
    pub texture_saved_valid: bool,
    /// Stack pointer of the texture stack, which only `MTX_PUSH`/`MTX_POP` move.
    pub texture_sp: u8,
    /// Sticky overflow flag (`GXSTAT` bit 15).
    pub overflow: bool,
}

/// The stacks as contracts speak of them.
#[verifier::ext_equal]
pub struct StacksState {
    pub mode: MtxMode,
    pub projection: Matrix,
    pub position: Matrix,
    pub vector: Matrix,
    pub texture: Matrix,
    pub projection_saved: Matrix,
    pub projection_sp: u8,
    pub position_stack: Seq<Matrix>,
    pub vector_stack: Seq<Matrix>,
    pub position_sp: u8,
    pub texture_saved: Matrix,
    pub texture_saved_valid: bool,
    pub texture_sp: u8,
    pub overflow: bool,
}

impl View for MatrixStacks {
    type V = StacksState;

    open spec fn view(&self) -> StacksState {
        StacksState {
            mode: self.mode,
            projection: self.projection,
            position: self.position,
            vector: self.vector,
            texture: self.texture,
            projection_saved: self.projection_saved,
            projection_sp: self.projection_sp,
            position_stack: self.position_stack@,
            vector_stack: self.vector_stack@,
            position_sp: self.position_sp,
            texture_saved: self.texture_saved,
            texture_saved_valid: self.texture_saved_valid,
            texture_sp: self.texture_sp,
            overflow: self.overflow,
        }
    }
}

/// A 6-bit two's-complement number in the low bits of a parameter.
pub open spec fn signed6(param: u32) -> int {
    let m = param % 64;
    if m >= 32 { m - 64 } else { m as int }
}

impl StacksState {
    /// Both stacks of the position pair hold 32 entries.
    pub open spec fn wf(self) -> bool {
        self.position_stack.len() == 32 && self.vector_stack.len() == 32
    }

    /// The matrix that the mode selects.
    pub open spec fn current(self) -> Matrix {
        match self.mode {
            MtxMode::Projection => self.projection,
            MtxMode::Position | MtxMode::PosVector => self.position,
            MtxMode::Texture => self.texture,
        }
    }

    /// The current matrix replaced; in mode 2 the vector matrix as well.
    pub open spec fn loaded(self, m: Matrix) -> StacksState {
        match self.mode {
            MtxMode::Projection => StacksState { projection: m, ..self },
            MtxMode::Position => StacksState { position: m, ..self },
            MtxMode::PosVector => StacksState { position: m, vector: m, ..self },
            MtxMode::Texture => StacksState { texture: m, ..self },
        }
    }

    /// The current matrix multiplied from the left; in mode 2 the vector matrix
    /// as well.
    pub open spec fn multiplied(self, m: Matrix) -> StacksState {
        match self.mode {
            MtxMode::Projection => StacksState {
                projection: matrix::product(m, self.projection),
                ..self
            },
            MtxMode::Position => StacksState {
                position: matrix::product(m, self.position),
                ..self
            },
            MtxMode::PosVector => StacksState {
                position: matrix::product(m, self.position),
                vector: matrix::product(m, self.vector),
                ..self
            },
            MtxMode::Texture => StacksState { texture: matrix::product(m, self.texture), ..self },
        }
    }

    /// The current matrix scaled; the vector matrix keeps its lengths.
    pub open spec fn scaled(self, sx: i32, sy: i32, sz: i32) -> StacksState {
        let m = matrix::scaling(sx, sy, sz);
        match self.mode {
            MtxMode::PosVector => StacksState {
                position: matrix::product(m, self.position),
                ..self
            },
            _ => self.multiplied(m),
        }
    }

    /// The current matrix saved on its stack.
    pub open spec fn pushed(self) -> StacksState {
        match self.mode {
            MtxMode::Projection => StacksState {
                overflow: self.overflow || self.projection_sp != 0,
                projection_saved: self.projection,
                projection_sp: ((self.projection_sp + 1) % 2) as u8,
                ..self
            },
            MtxMode::Texture => StacksState {
                overflow: self.overflow || self.texture_sp != 0,
                texture_saved: self.texture,
                texture_saved_valid: true,
                texture_sp: 1,
                ..self
            },
            MtxMode::Position | MtxMode::PosVector => {
                let i = self.position_sp as int % 32;
                StacksState {
                    overflow: self.overflow || self.position_sp >= 31,
                    position_stack: self.position_stack.update(i, self.position),
                    vector_stack: self.vector_stack.update(i, self.vector),
                    position_sp: ((self.position_sp + 1) % 64) as u8,
                    ..self
                }
            },
        }
    }

    /// The current matrix taken from its stack, `param` levels down.
    pub open spec fn popped(self, param: u32) -> StacksState {
        match self.mode {
            MtxMode::Projection => StacksState {
                overflow: self.overflow || self.projection_sp == 0,
                projection_sp: ((self.projection_sp + 1) % 2) as u8,
                projection: self.projection_saved,
                ..self
            },
            MtxMode::Texture => if self.texture_sp != 0 {
                StacksState {
                    texture: self.texture_saved,
                    texture_saved_valid: false,
                    texture_sp: 0,
                    ..self
                }
            } else {
                StacksState { overflow: true, ..self }
            },
            MtxMode::Position | MtxMode::PosVector => {
                let sp = (self.position_sp - signed6(param)) % 64;
                StacksState {
                    overflow: self.overflow || signed6(param) < -30 || sp >= 31,
                    position_sp: sp as u8,
                    position: self.position_stack[sp % 32],
                    vector: self.vector_stack[sp % 32],
                    ..self
                }
            },
        }
    }

    /// The current matrix copied to a stack slot.
    pub open spec fn stored(self, slot: u32) -> StacksState {
        match self.mode {
            MtxMode::Projection => StacksState { projection_saved: self.projection, ..self },
            MtxMode::Texture => StacksState {
                texture_saved: self.texture,
                texture_saved_valid: true,
                ..self
            },
            MtxMode::Position | MtxMode::PosVector => {
                let i = slot as int % 32;
                if i == 31 {
                    StacksState { overflow: true, ..self }
                } else {
                    StacksState {
                        position_stack: self.position_stack.update(i, self.position),
                        vector_stack: self.vector_stack.update(i, self.vector),
                        ..self
                    }
                }
            },
        }
    }

    /// The current matrix loaded from a stack slot.
    pub open spec fn restored(self, slot: u32) -> StacksState {
        match self.mode {
            MtxMode::Projection => StacksState { projection: self.projection_saved, ..self },
            MtxMode::Texture => if self.texture_saved_valid {
                StacksState { texture: self.texture_saved, ..self }
            } else {
                StacksState { overflow: true, ..self }
            },
            MtxMode::Position | MtxMode::PosVector => {
                let i = slot as int % 32;
                if i == 31 {
                    StacksState { overflow: true, ..self }
                } else {
                    StacksState {
                        position: self.position_stack[i],
                        vector: self.vector_stack[i],
                        ..self
                    }
                }
            },
        }
    }

    /// The matrix from object space to clip space.
    pub open spec fn clip(self) -> Matrix {
        matrix::product(self.position, self.projection)
    }

    /// The error acknowledged.
    pub open spec fn acknowledged(self) -> StacksState {
        StacksState {
            overflow: false,
            projection_sp: 0,
            texture_saved_valid: false,
            texture_sp: 0,
            ..self
        }
    }
}

/// All stacks at power-on.
pub open spec fn initial() -> StacksState {
    StacksState {
        mode: MtxMode::Projection,
        projection: matrix::identity(),
        position: matrix::identity(),
        vector: matrix::identity(),
        texture: matrix::identity(),
        projection_saved: matrix::identity(),
        projection_sp: 0,
        position_stack: Seq::new(32, |i: int| matrix::identity()),
        vector_stack: Seq::new(32, |i: int| matrix::identity()),
        position_sp: 0,
        texture_saved: matrix::identity(),
        texture_saved_valid: false,
        texture_sp: 0,
        overflow: false,
    }
}

/// Popping one level undoes a push: all current matrices and the stack pointers
/// are as before.
pub proof fn law_pop_undoes_push(s: StacksState)
    requires
        s.wf(),
        s.position_sp < 64,
        s.projection_sp < 2,
    ensures
        ({
            let after = s.pushed().popped(1);
            &&& after.projection == s.projection
            &&& after.position == s.position
            &&& after.vector == s.vector
            &&& after.texture == s.texture
            &&& after.position_sp == s.position_sp
            &&& after.projection_sp == s.projection_sp
            &&& s.texture_sp == 0 ==> after.texture_sp == 0
            &&& after.wf()
        }),
{
    assert((s.position_sp + 1) % 64 - 1 == s.position_sp || s.position_sp == 63);
}

/// Restoring a slot gives back what was stored there, whatever matrix was
/// loaded in between. The stack pointers do not move, so a push that follows
/// overflows only where it would have without the store.
pub proof fn law_restore_gives_back_store(s: StacksState, slot: u32, other: Matrix)
    requires
        s.wf(),
        slot % 32 != 31,
    ensures
        ({
            let after = s.stored(slot).loaded(other).restored(slot);
            &&& after.current() == s.current()
            &&& s.mode == MtxMode::PosVector ==> after.vector == s.vector
            &&& after.position_sp == s.position_sp
            &&& after.projection_sp == s.projection_sp
            &&& after.texture_sp == s.texture_sp
            &&& after.overflow == s.overflow
            &&& s.stored(slot).pushed().overflow == s.pushed().overflow
        }),
{
}

/// The overflow flag is sticky: no stack operation clears it.
pub proof fn law_overflow_is_sticky(s: StacksState, m: Matrix, param: u32)
    requires
        s.overflow,
    ensures
        s.loaded(m).overflow,
        s.multiplied(m).overflow,
        s.pushed().overflow,
        s.popped(param).overflow,
        s.stored(param).overflow,
        s.restored(param).overflow,
        !s.acknowledged().overflow,
{
}

/// The two stacks of the position pair move in lockstep: pushing and popping
/// never take the position and the vector matrix from different slots.
pub proof fn law_position_pair_lockstep(s: StacksState, param: u32)
    requires
        s.wf(),
        s.mode == MtxMode::Position || s.mode == MtxMode::PosVector,
    ensures
        exists|i: int|
            0 <= i < 32 && s.popped(param).position == s.position_stack[i] && s.popped(param).vector
                == #[trigger] s.vector_stack[i],
        exists|i: int|
            0 <= i < 32 && s.pushed().position_stack == s.position_stack.update(i, s.position)
                && s.pushed().vector_stack == #[trigger] s.vector_stack.update(i, s.vector),
{
    let sp = (s.position_sp - signed6(param)) % 64;
    assert(s.popped(param).vector == s.vector_stack[sp % 32]);
    let i = s.position_sp as int % 32;
    assert(s.pushed().vector_stack == s.vector_stack.update(i, s.vector));
}

/// The pointer of the position pair stays within 6 bits.
pub proof fn law_position_pointer_range(s: StacksState, param: u32)
    requires
        s.position_sp < 64,
    ensures
        s.pushed().position_sp < 64,
        s.popped(param).position_sp < 64,
{
}

impl MatrixStacks {
    pub fn new() -> (r: Self)
        ensures
            r@ == initial(),
            r@.wf(),
    {
        let r = MatrixStacks {
            mode: MtxMode::Projection,
            projection: Matrix::identity(),
            position: Matrix::identity(),
            vector: Matrix::identity(),
            texture: Matrix::identity(),
            projection_saved: Matrix::identity(),
            projection_sp: 0,
            position_stack: vec![Matrix::identity(); 32],
            vector_stack: vec![Matrix::identity(); 32],
            position_sp: 0,
            texture_saved: Matrix::identity(),
            texture_saved_valid: false,
            texture_sp: 0,
            overflow: false,
        };
        assert(r@ =~= initial());
        r
    }

    /// `MTX_MODE`: select the active stack.
    pub fn set_mode(&mut self, mode: MtxMode)
        ensures
            final(self)@ == (StacksState { mode, ..old(self)@ }),
    {
        self.mode = mode;
    }

    /// `MTX_IDENTITY`: clear the current matrix to identity.
    pub fn identity(&mut self)
        ensures
            final(self)@ == old(self)@.loaded(matrix::identity()),
    {
        self.load(Matrix::identity());
    }

    /// `MTX_LOAD_4x4`: replace the current matrix.
    pub fn load(&mut self, m: Matrix)
        ensures
            final(self)@ == old(self)@.loaded(m),
    {
        match self.mode {
            MtxMode::Projection => {
                self.projection = m;
            },
            MtxMode::Position => {
                self.position = m;
            },
            MtxMode::PosVector => {
                self.position = m;
                self.vector = m;
            },
            MtxMode::Texture => {
                self.texture = m;
            },
        }
    }

    /// `MTX_MULT_*`: the command matrix applies before the current matrix,
    /// `current = m * current`.
    pub fn mult(&mut self, m: Matrix)
        ensures
            final(self)@ == old(self)@.multiplied(m),
    {
        match self.mode {
            MtxMode::Projection => {
                self.projection = m.mul_matrix(&self.projection);
            },
            MtxMode::Position => {
                self.position = m.mul_matrix(&self.position);
            },
            MtxMode::PosVector => {
                self.position = m.mul_matrix(&self.position);
                self.vector = m.mul_matrix(&self.vector);
            },
            MtxMode::Texture => {
                self.texture = m.mul_matrix(&self.texture);
            },
        }
    }

    /// `MTX_SCALE`: pre-multiply by a scale matrix, except that mode 2 updates
    /// only the position matrix so the directional matrix keeps light-vector
    /// lengths.
    pub fn scale(&mut self, sx: i32, sy: i32, sz: i32)
        ensures
            final(self)@ == old(self)@.scaled(sx, sy, sz),
    {
        let m: Matrix = Matrix::identity().mul_scale(sx, sy, sz);
        proof {
            matrix::law_identity_left(matrix::scaling(sx, sy, sz));
        }
        match self.mode {
            MtxMode::PosVector => {
                self.position = m.mul_matrix(&self.position);
            },
            _ => self.mult(m),
        }
    }

    /// `MTX_TRANS`: pre-multiply the selected matrix or matrices by a
    /// translation matrix.
    pub fn translate(&mut self, tx: i32, ty: i32, tz: i32)
        ensures
            final(self)@ == old(self)@.multiplied(matrix::translation(tx, ty, tz)),
    {
        let m: Matrix = Matrix::identity().mul_translate(tx, ty, tz);
        proof {
            matrix::law_identity_left(matrix::translation(tx, ty, tz));
        }
        self.mult(m);
    }

    /// `MTX_PUSH`: save current onto its stack.
    pub fn push(&mut self)
        requires
            old(self)@.wf(),
        ensures
            final(self)@ == old(self)@.pushed(),
            final(self)@.wf(),
    {
        match self.mode {
            MtxMode::Projection => {
                if self.projection_sp != 0 {
                    self.overflow = true;
                }
                self.projection_saved = self.projection;
                self.projection_sp = (self.projection_sp % 2 + 1) % 2;
            },
            MtxMode::Texture => {
                if self.texture_sp != 0 {
                    self.overflow = true;
                }
                self.texture_saved = self.texture;
                self.texture_saved_valid = true;
                self.texture_sp = 1;
            },
            MtxMode::Position | MtxMode::PosVector => {
                let idx: usize = (self.position_sp % 32) as usize;
                if self.position_sp >= 31 {
                    self.overflow = true;
                }
                self.position_stack[idx] = self.position;
                self.vector_stack[idx] = self.vector;
                self.position_sp = (self.position_sp % 64 + 1) % 64;
            },
        }
    }

    /// `MTX_POP`: restore current from its stack. The parameter is a signed
    /// 6-bit offset: 1..31 pops that many levels, 32..63 moves the pointer up
    /// again.
    pub fn pop(&mut self, count_param: u32)
        requires
            old(self)@.wf(),
        ensures
            final(self)@ == old(self)@.popped(count_param),
            final(self)@.wf(),
    {
        let low: i32 = (count_param % 64) as i32;
        let signed_count: i32 = if low >= 32 {
            low - 64
        } else {
            low
        };
        match self.mode {
            MtxMode::Projection => {
                if self.projection_sp == 0 {
                    self.overflow = true;
                }
                self.projection_sp = (self.projection_sp % 2 + 1) % 2;
                self.projection = self.projection_saved;
            },
            MtxMode::Texture => {
                if self.texture_sp == 0 {
                    self.overflow = true;
                } else {
                    self.texture = self.texture_saved;
                    self.texture_saved_valid = false;
                    self.texture_sp = 0;
                }
            },
            MtxMode::Position | MtxMode::PosVector => {
                if signed_count < -30 {
                    self.overflow = true;
                }
                let sp: u32 = (self.position_sp as i32 - signed_count + 64) as u32 % 64;
                self.position_sp = sp as u8;
                if sp >= 31 {
                    self.overflow = true;
                }
                let idx: usize = (sp % 32) as usize;
                self.position = self.position_stack[idx];
                self.vector = self.vector_stack[idx];
            },
        }
    }

    /// `MTX_STORE`: copy current to a specific stack slot (0..30 for the
    /// position pair). For projection and texture this writes the single saved
    /// slot without changing the stack pointer.
    pub fn store(&mut self, slot: u32)
        requires
            old(self)@.wf(),
        ensures
            final(self)@ == old(self)@.stored(slot),
            final(self)@.wf(),
    {
        match self.mode {
            MtxMode::Projection => {
                self.projection_saved = self.projection;
            },
            MtxMode::Texture => {
                self.texture_saved = self.texture;
                self.texture_saved_valid = true;
            },
            MtxMode::Position | MtxMode::PosVector => {
                let idx: usize = (slot % 32) as usize;
                if idx == 31 {
                    self.overflow = true;
                } else {
                    self.position_stack[idx] = self.position;
                    self.vector_stack[idx] = self.vector;
                }
            },
        }
    }

    /// `MTX_RESTORE`: load current from a specific stack slot.
    pub fn restore(&mut self, slot: u32)
        requires
            old(self)@.wf(),
        ensures
            final(self)@ == old(self)@.restored(slot),
            final(self)@.wf(),
    {
        match self.mode {
            MtxMode::Projection => {
                self.projection = self.projection_saved;
            },
            MtxMode::Texture => {
                if self.texture_saved_valid {
                    self.texture = self.texture_saved;
                } else {
                    self.overflow = true;
                }
            },
            MtxMode::Position | MtxMode::PosVector => {
                let idx: usize = (slot % 32) as usize;
                if idx == 31 {
                    self.overflow = true;
                } else {
                    self.position = self.position_stack[idx];
                    self.vector = self.vector_stack[idx];
                }
            },
        }
    }

    /// Read-only access to the current matrix of this mode.
    pub fn current(&self) -> (r: &Matrix)
        ensures
            *r == self@.current(),
    {
        match self.mode {
            MtxMode::Projection => &self.projection,
            MtxMode::Position | MtxMode::PosVector => &self.position,
            MtxMode::Texture => &self.texture,
        }
    }

    /// `clip = position * projection`, used per vertex.
    pub fn clip_matrix(&self) -> (r: Matrix)
        ensures
            r == self@.clip(),
    {
        self.position.mul_matrix(&self.projection)
    }

    /// GXSTAT bit 15 is write-one-to-clear. Acknowledging the error also resets
    /// the pointers of the two 1-deep stacks.
    pub fn clear_overflow_error(&mut self)
        ensures
            final(self)@ == old(self)@.acknowledged(),
    {
        self.overflow = false;
        self.projection_sp = 0;
        self.texture_saved_valid = false;
        self.texture_sp = 0;
    }
}

impl Default for MatrixStacks {
    fn default() -> (r: Self)
        ensures
            r@ == initial(),
            r@.wf(),
    {
        Self::new()
    }
}

/// Each mode has its own matrix: loading replaces that one and no other, and in mode
/// 2 the vector matrix goes with the position matrix.
pub proof fn law_mode_selects_matrix(s: StacksState, bits: u32, m: Matrix)
    ensures
        ({
            let after = StacksState { mode: mode_of(bits), ..s }.loaded(m);
            &&& after.projection == if bits % 4 == 0 { m } else { s.projection }
            &&& after.position == if bits % 4 == 1 || bits % 4 == 2 { m } else { s.position }
            &&& after.vector == if bits % 4 == 2 { m } else { s.vector }
            &&& after.texture == if bits % 4 == 3 { m } else { s.texture }
        }),
{
}

/// Multiplying an identity matrix gives the new matrix, in mode 2 for both of the
/// pair; a multiplication touches the matrices of its own mode alone.
pub proof fn law_multiplying_identity(s: StacksState, m: Matrix)
    requires
        s.projection == matrix::identity(),
        s.position == matrix::identity(),
        s.vector == matrix::identity(),
        s.texture == matrix::identity(),
    ensures
        s.multiplied(m) == s.loaded(m),
{
    matrix::law_identity_right(m);
}

/// What is multiplied in last acts first: on a matrix that scales, a translation
/// moves by scaled distances, in every mode.
pub proof fn law_multiplied_matrix_acts_first(
    s: StacksState,
    sx: i32,
    sy: i32,
    sz: i32,
    tx: i32,
    ty: i32,
    tz: i32,
)
    requires
        s.current() == matrix::scaling(sx, sy, sz),
    ensures
        ({
            let m = s.multiplied(matrix::translation(tx, ty, tz)).current();
            &&& m.m[12] == matrix::rescale(tx * sx)
            &&& m.m[13] == matrix::rescale(ty * sy)
            &&& m.m[14] == matrix::rescale(tz * sz)
        }),
{
    let a = matrix::translation(tx, ty, tz);
    let b = matrix::scaling(sx, sy, sz);
    lemma_moved_then_scaled(sx, sy, sz, tx, ty, tz);
}

proof fn lemma_moved_then_scaled(sx: i32, sy: i32, sz: i32, tx: i32, ty: i32, tz: i32)
    ensures
        ({
            let m = matrix::product(
                matrix::translation(tx, ty, tz),
                matrix::scaling(sx, sy, sz),
            );
            &&& m.m[12] == matrix::rescale(tx * sx)
            &&& m.m[13] == matrix::rescale(ty * sy)
            &&& m.m[14] == matrix::rescale(tz * sz)
        }),
{
    let a = matrix::translation(tx, ty, tz);
    let b = matrix::scaling(sx, sy, sz);
    assert(a.entry(3, 0) == tx && a.entry(3, 1) == ty && a.entry(3, 2) == tz);
    assert(a.entry(3, 3) == 4096);
    assert(b.entry(0, 0) == sx && b.entry(1, 1) == sy && b.entry(2, 2) == sz);
    assert(b.entry(0, 1) == 0 && b.entry(0, 2) == 0 && b.entry(1, 0) == 0 && b.entry(1, 2) == 0);
    assert(b.entry(2, 0) == 0 && b.entry(2, 1) == 0 && b.entry(3, 0) == 0 && b.entry(3, 1) == 0);
    assert(b.entry(3, 2) == 0);
    assert(tx * 0 == 0 && ty * 0 == 0 && tz * 0 == 0);
}

/// The clip matrix applies the position matrix first and then the projection: a
/// position that moves is seen through a projection that scales at scaled distances.
pub proof fn law_projection_follows_position(
    s: StacksState,
    sx: i32,
    sy: i32,
    sz: i32,
    tx: i32,
    ty: i32,
    tz: i32,
)
    requires
        s.position == matrix::translation(tx, ty, tz),
        s.projection == matrix::scaling(sx, sy, sz),
    ensures
        s.clip().m[12] == matrix::rescale(tx * sx),
        s.clip().m[13] == matrix::rescale(ty * sy),
        s.clip().m[14] == matrix::rescale(tz * sz),
{
    lemma_moved_then_scaled(sx, sy, sz, tx, ty, tz);
}

/// With an identity for the one, the clip matrix is the other.
pub proof fn law_clip_matrix_of_identity(s: StacksState)
    ensures
        s.position == matrix::identity() ==> s.clip() == s.projection,
        s.projection == matrix::identity() ==> s.clip() == s.position,
{
    matrix::law_identity_left(s.projection);
    matrix::law_identity_right(s.position);
}

/// Scaling stretches the current matrix but never the vector matrix.
pub proof fn law_scaling_keeps_vectors(s: StacksState, sx: i32, sy: i32, sz: i32)
    ensures
        s.scaled(sx, sy, sz).vector == s.vector,
        s.scaled(sx, sy, sz).current() == s.multiplied(matrix::scaling(sx, sy, sz)).current(),
{
}

/// A push moves the pointer of its own stack one up, a pop by `n` moves the position
/// pointer `n` down, in a ring of 64; storing and restoring move none.
pub proof fn law_stack_pointers(s: StacksState, n: u32, slot: u32)
    requires
        n < 32,
        s.position_sp < 64,
        s.projection_sp < 2,
    ensures
        s.mode == MtxMode::Position || s.mode == MtxMode::PosVector ==> {
            &&& s.pushed().position_sp == if s.position_sp == 63 { 0 } else { s.position_sp + 1 }
            &&& s.popped(n).position_sp == if s.position_sp >= n {
                s.position_sp - n
            } else {
                s.position_sp - n + 64
            }
            &&& n > 0 ==> s.popped((64 - n) as u32).position_sp == (s.position_sp + n) % 64
            &&& s.pushed().projection_sp == s.projection_sp
            &&& s.pushed().texture_sp == s.texture_sp
        },
        s.mode == MtxMode::Projection ==> {
            &&& s.pushed().projection_sp == 1 - s.projection_sp
            &&& s.popped(n).projection_sp == 1 - s.projection_sp
            &&& s.pushed().position_sp == s.position_sp
        },
        s.stored(slot).position_sp == s.position_sp,
        s.restored(slot).position_sp == s.position_sp,
        s.stored(slot).projection_sp == s.projection_sp,
        s.restored(slot).projection_sp == s.projection_sp,
{
}

/// The error flag comes up when a stack is left: a push at level 31 or above, a pop
/// below 0, a projection pushed twice or popped while empty, slot 31 by number.
pub proof fn law_stack_errors(s: StacksState, n: u32, slot: u32)
    requires
        !s.overflow,
        n < 32,
        s.position_sp < 64,
    ensures
        s.mode == MtxMode::Position || s.mode == MtxMode::PosVector ==> {
            &&& s.pushed().overflow == (s.position_sp >= 31)
            &&& s.position_sp < 31 ==> s.popped(n).overflow == (n > s.position_sp)
            &&& s.stored(slot).overflow == (slot % 32 == 31)
            &&& s.restored(slot).overflow == (slot % 32 == 31)
        },
        s.mode == MtxMode::Projection ==> {
            &&& s.pushed().overflow == (s.projection_sp != 0)
            &&& s.popped(n).overflow == (s.projection_sp == 0)
            &&& !s.stored(slot).overflow && !s.restored(slot).overflow
        },
        s.mode == MtxMode::Texture ==> {
            &&& s.pushed().overflow == (s.texture_sp != 0)
            &&& s.popped(n).overflow == (s.texture_sp == 0)
            &&& s.restored(slot).overflow == !s.texture_saved_valid
        },
{
}

} // verus!
