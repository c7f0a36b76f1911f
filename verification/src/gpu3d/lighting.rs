//! Per-vertex lighting.
//!
//! 4 directional lights, each with a direction vector and a color. Material
//! parameters: diffuse, ambient, specular and emission, each a BGR555 value. A
//! 128-entry shininess table optionally shapes the specular term.
//!
//! For each lit vertex:
//!
//! ```text
//!   color = emission
//!         + sum over enabled lights of light_color * (
//!               ambient
//!             + max(0, -L . N) * diffuse
//!             + shininess(max(0, -H . N) ^ 2) * specular
//!           )
//! ```
//!
//! All channels are clamped to 0..31 and packed into a BGR555 color.

use vstd::prelude::*;
use crate::bgr555;
use crate::fixed;
use super::fifo;
use super::matrix;
use super::matrix::{fmul, Matrix, ONE};

verus! {

/// One directional light source.
#[derive(Debug, Clone, Copy)]
pub struct Light {
    /// Direction the light points, transformed by the vector matrix.
    pub direction: [i32; 3],
    /// Half-way between the light and the line of sight, for specular lighting.
    pub half_vector: [i32; 3],
    /// BGR555 color.
    pub color: u16,
}

/// A light that is off.
pub open spec fn dark() -> Light {
    Light { direction: [0, 0, 0], half_vector: [0, 0, 0], color: 0 }
}

impl Default for Light {
    fn default() -> (r: Self)
        ensures
            r == dark(),
    {
        Light { direction: [0, 0, 0], half_vector: [0, 0, 0], color: 0 }
    }
}

/// Lighting unit state.
#[derive(Debug, Clone)]
pub struct LightingState {
    pub lights: [Light; 4],
    /// Material colors as BGR555.
    pub mat_diffuse: u16,
    pub mat_ambient: u16,
    pub mat_specular: u16,
    pub mat_emission: u16,
    /// Whether the last `DIF_AMB` also set the vertex color.
    pub set_color_from_diffuse: bool,
    /// Whether the specular term goes through the shininess table.
    pub use_shininess_table: bool,
    /// 128-entry shininess table, each entry a 0..255 share.
    pub shininess_table: Vec<u8>,
}

/// The lighting unit as contracts speak of it.
#[verifier::ext_equal]
pub struct LightingView {
    pub lights: Seq<Light>,
    pub mat_diffuse: u16,
    pub mat_ambient: u16,
    pub mat_specular: u16,
    pub mat_emission: u16,
    pub set_color_from_diffuse: bool,
    pub use_shininess_table: bool,
    pub shininess_table: Seq<u8>,
}

impl View for LightingState {
    type V = LightingView;

    open spec fn view(&self) -> LightingView {
        LightingView {
            lights: self.lights@,
            mat_diffuse: self.mat_diffuse,
            mat_ambient: self.mat_ambient,
            mat_specular: self.mat_specular,
            mat_emission: self.mat_emission,
            set_color_from_diffuse: self.set_color_from_diffuse,
            use_shininess_table: self.use_shininess_table,
            shininess_table: self.shininess_table@,
        }
    }
}

/// Dot product of two 1.19.12 vectors, each term rounded down.
pub open spec fn dot3(a: [i32; 3], b: [i32; 3]) -> int {
    matrix::rescale(a[0] * b[0]) + matrix::rescale(a[1] * b[1]) + matrix::rescale(a[2] * b[2])
}

/// How much a direction faces a surface: `max(0, -d . n)`, at most one.
pub open spec fn facing(d: [i32; 3], n: [i32; 3]) -> int {
    fixed::clamp(-dot3(d, n), 0, 4096)
}

/// Channel `k` of a color: 0 red, 1 green, 2 blue.
pub open spec fn channel(c: u16, k: int) -> int {
    if k == 0 {
        bgr555::red(c)
    } else if k == 1 {
        bgr555::green(c)
    } else {
        bgr555::blue(c)
    }
}

/// Light times material times a 1.19.12 factor, in channel units.
pub open spec fn reflected(light: int, material: int, factor: int) -> int {
    fixed::min(light * material * factor / (31int * 4096), 31)
}

/// The first three components of a direction transformed by a matrix.
pub open spec fn direction_by(d: [i32; 3], m: Matrix) -> [i32; 3] {
    let v = matrix::transformed([d[0], d[1], d[2], 0], m);
    [v[0], v[1], v[2]]
}

/// The weight of light `i` in an enable mask.
pub open spec fn light_bit(i: int) -> int {
    if i == 0 {
        1
    } else if i == 1 {
        2
    } else if i == 2 {
        4
    } else {
        8
    }
}

impl LightingView {
    /// There are four lights and 128 table entries.
    pub open spec fn wf(self) -> bool {
        self.lights.len() == 4 && self.shininess_table.len() == 128
    }

    /// The specular factor of light `i` on a surface with normal `n`.
    pub open spec fn specular(self, i: int, n: [i32; 3]) -> int {
        let h = facing(self.lights[i].half_vector, n);
        let level = h * h / 4096;
        if self.use_shininess_table {
            self.shininess_table[level * 127 / 4096] as int * 4096 / 255
        } else {
            level
        }
    }

    /// What light `i` adds to channel `k` of a surface with normal `n`.
    pub open spec fn contribution(self, i: int, n: [i32; 3], k: int) -> int {
        let light = channel(self.lights[i].color, k);
        reflected(light, channel(self.mat_ambient, k), 4096) + reflected(
            light,
            channel(self.mat_diffuse, k),
            facing(self.lights[i].direction, n),
        ) + reflected(light, channel(self.mat_specular, k), self.specular(i, n))
    }

    /// Channel `k` with the first `count` lights.
    pub open spec fn level(self, n: [i32; 3], mask: u8, k: int, count: int) -> int
        decreases count,
    {
        if count <= 0 {
            channel(self.mat_emission, k)
        } else {
            self.level(n, mask, k, count - 1) + if fixed::bit(mask as int, light_bit(count - 1)) {
                self.contribution(count - 1, n, k)
            } else {
                0
            }
        }
    }

    /// The lit color of a vertex with an object-space normal.
    pub open spec fn lit(self, normal: [i32; 3], vectors: Matrix, mask: u8) -> u16 {
        let n = direction_by(normal, vectors);
        bgr555::pack(
            fixed::min(self.level(n, mask, 0, 4), 31),
            fixed::min(self.level(n, mask, 1, 4), 31),
            fixed::min(self.level(n, mask, 2, 4), 31),
        )
    }

    /// After `DIF_AMB`.
    pub open spec fn with_dif_amb(self, param: u32) -> LightingView {
        LightingView {
            mat_diffuse: (param as int % 0x8000) as u16,
            set_color_from_diffuse: fixed::bit(param as int, 0x8000),
            mat_ambient: (param as int / 0x1_0000 % 0x8000) as u16,
            ..self
        }
    }

    /// After `SPE_EMI`.
    pub open spec fn with_spe_emi(self, param: u32) -> LightingView {
        LightingView {
            mat_specular: (param as int % 0x8000) as u16,
            use_shininess_table: fixed::bit(param as int, 0x8000),
            mat_emission: (param as int / 0x1_0000 % 0x8000) as u16,
            ..self
        }
    }

    /// After `LIGHT_VECTOR`.
    pub open spec fn with_light_vector(self, param: u32, vectors: Matrix) -> LightingView {
        let i = param as int / 0x4000_0000;
        let d = direction_by(
            [
                (fixed::sign10(param) * 8) as i32,
                (fixed::sign10(param / 0x400) * 8) as i32,
                (fixed::sign10(param / 0x10_0000) * 8) as i32,
            ],
            vectors,
        );
        LightingView {
            lights: self.lights.update(
                i,
                Light {
                    direction: d,
                    half_vector: [
                        fixed::tdiv(d[0] as int, 2) as i32,
                        fixed::tdiv(d[1] as int, 2) as i32,
                        fixed::tdiv(d[2] - 4096, 2) as i32,
                    ],
                    ..self.lights[i]
                },
            ),
            ..self
        }
    }

    /// After `LIGHT_COLOR`.
    pub open spec fn with_light_color(self, param: u32) -> LightingView {
        let i = param as int / 0x4000_0000;
        LightingView {
            lights: self.lights.update(
                i,
                Light { color: (param as int % 0x8000) as u16, ..self.lights[i] },
            ),
            ..self
        }
    }

    /// After `SHININESS`: each word holds four table entries, lowest byte first.
    pub open spec fn with_shininess(self, params: Seq<u32>) -> LightingView {
        LightingView {
            shininess_table: Seq::new(
                128,
                |i: int|
                    if i / 4 < params.len() {
                        fifo::byte_at(params[i / 4], i % 4)
                    } else {
                        self.shininess_table[i]
                    },
            ),
            ..self
        }
    }
}

/// The lighting unit at power-on.
pub open spec fn unlit() -> LightingView {
    LightingView {
        lights: Seq::new(4, |i: int| dark()),
        mat_diffuse: 0,
        mat_ambient: 0,
        mat_specular: 0,
        mat_emission: 0,
        set_color_from_diffuse: false,
        use_shininess_table: false,
        shininess_table: Seq::new(128, |i: int| 0u8),
    }
}

/// The lit color is in range, and lights only ever add to the emission color.
pub proof fn law_lights_only_add(s: LightingView, normal: [i32; 3], vectors: Matrix, mask: u8)
    requires
        s.wf(),
    ensures
        s.lit(normal, vectors, mask) < 0x8000,
        bgr555::red(s.mat_emission) <= bgr555::red(s.lit(normal, vectors, mask)),
        bgr555::green(s.mat_emission) <= bgr555::green(s.lit(normal, vectors, mask)),
        bgr555::blue(s.mat_emission) <= bgr555::blue(s.lit(normal, vectors, mask)),
{
    let n = direction_by(normal, vectors);
    lemma_level_range(s, n, mask, 0, 4);
    lemma_level_range(s, n, mask, 1, 4);
    lemma_level_range(s, n, mask, 2, 4);
    bgr555::law_pack_channels(
        fixed::min(s.level(n, mask, 0, 4), 31),
        fixed::min(s.level(n, mask, 1, 4), 31),
        fixed::min(s.level(n, mask, 2, 4), 31),
    );
}

/// With no light enabled the vertex has the emission color.
pub proof fn law_no_lights_emission(s: LightingView, normal: [i32; 3], vectors: Matrix)
    ensures
        s.lit(normal, vectors, 0) == bgr555::rgb(s.mat_emission),
{
    let n = direction_by(normal, vectors);
    reveal_with_fuel(LightingView::level, 5);
    bgr555::law_channels_pack(s.mat_emission);
}

proof fn lemma_specular_range(s: LightingView, i: int, n: [i32; 3])
    requires
        s.wf(),
    ensures
        0 <= s.specular(i, n) <= 4096,
        ({
            let h = facing(s.lights[i].half_vector, n);
            0 <= h * h / 4096 * 127 / 4096 <= 127 && 0 <= h * h / 4096 <= 4096
        }),
{
    let h = facing(s.lights[i].half_vector, n);
    assert(0 <= h * h <= 4096 * 4096) by (nonlinear_arith)
        requires
            0 <= h <= 4096,
    ;
}

proof fn lemma_reflected_range(light: int, material: int, factor: int)
    requires
        0 <= light <= 31,
        0 <= material <= 31,
        0 <= factor <= 4096,
    ensures
        0 <= reflected(light, material, factor) <= 31,
        0 <= light * material <= 961,
        0 <= light * material * factor <= 961 * 4096,
{
    assert(0 <= light * material <= 961) by (nonlinear_arith)
        requires
            0 <= light <= 31,
            0 <= material <= 31,
    ;
    let p = light * material;
    assert(0 <= p * factor <= 961 * 4096) by (nonlinear_arith)
        requires
            0 <= p <= 961,
            0 <= factor <= 4096,
    ;
}

proof fn lemma_level_range(s: LightingView, n: [i32; 3], mask: u8, k: int, count: int)
    requires
        s.wf(),
        0 <= count <= 4,
    ensures
        channel(s.mat_emission, k) <= s.level(n, mask, k, count) <= 31 + 93 * count,
        0 <= channel(s.mat_emission, k) <= 31,
    decreases count,
{
    if count > 0 {
        lemma_level_range(s, n, mask, k, count - 1);
        let light = channel(s.lights[count - 1].color, k);
        lemma_specular_range(s, count - 1, n);
        lemma_reflected_range(light, channel(s.mat_ambient, k), 4096);
        lemma_reflected_range(
            light,
            channel(s.mat_diffuse, k),
            facing(s.lights[count - 1].direction, n),
        );
        lemma_reflected_range(light, channel(s.mat_specular, k), s.specular(count - 1, n));
    }
}

impl LightingState {
    pub fn new() -> (r: Self)
        ensures
            r@ == unlit(),
            r@.wf(),
    {
        let off: Light = Light::default();
        let r = LightingState {
            lights: [off, off, off, off],
            mat_diffuse: 0,
            mat_ambient: 0,
            mat_specular: 0,
            mat_emission: 0,
            set_color_from_diffuse: false,
            use_shininess_table: false,
            shininess_table: vec![0u8; 128],
        };
        assert(r.lights@ =~= unlit().lights);
        assert(r.shininess_table@ =~= unlit().shininess_table);
        assert(r@ =~= unlit());
        r
    }

    /// `DIF_AMB`: `[14:0]` = material diffuse, `[15]` = set vertex color,
    /// `[30:16]` = material ambient.
    pub fn set_dif_amb(&mut self, param: u32)
        ensures
            final(self)@ == old(self)@.with_dif_amb(param),
    {
        self.mat_diffuse = (param % 0x8000) as u16;
        self.set_color_from_diffuse = fixed::has_bit(param, 0x8000);
        self.mat_ambient = ((param / 0x1_0000) % 0x8000) as u16;
    }

    /// `SPE_EMI`: `[14:0]` = material specular, `[15]` = shininess table enable,
    /// `[30:16]` = material emission.
    pub fn set_spe_emi(&mut self, param: u32)
        ensures
            final(self)@ == old(self)@.with_spe_emi(param),
    {
        self.mat_specular = (param % 0x8000) as u16;
        self.use_shininess_table = fixed::has_bit(param, 0x8000);
        self.mat_emission = ((param / 0x1_0000) % 0x8000) as u16;
    }

    /// `LIGHT_VECTOR`: `[29:0]` = three 10-bit signed components, `[31:30]` =
    /// light index. The direction is transformed by the vector matrix.
    pub fn set_light_vector(&mut self, param: u32, vec_matrix: &Matrix)
        ensures
            final(self)@ == old(self)@.with_light_vector(param, *vec_matrix),
    {
        let ghost start = self@;
        let id: usize = (param / 0x4000_0000) as usize;
        let (x, y, z): (i32, i32, i32) = fixed::sign_extend10x3(param);
        let v: [i32; 4] = vec_matrix.mul_vec4([x * 8, y * 8, z * 8, 0]);
        let d: [i32; 3] = [v[0], v[1], v[2]];
        let half: [i32; 3] = [
            fixed::div_trunc(v[0] as i64, 2) as i32,
            fixed::div_trunc(v[1] as i64, 2) as i32,
            fixed::div_trunc(v[2] as i64 - ONE as i64, 2) as i32,
        ];
        let old_light: Light = self.lights[id];
        self.lights[id] = Light { direction: d, half_vector: half, color: old_light.color };
        assert(self@ =~= start.with_light_vector(param, *vec_matrix));
    }

    /// `LIGHT_COLOR`: `[14:0]` = BGR555 color, `[31:30]` = light index.
    pub fn set_light_color(&mut self, param: u32)
        ensures
            final(self)@ == old(self)@.with_light_color(param),
    {
        let ghost start = self@;
        let id: usize = (param / 0x4000_0000) as usize;
        let light: Light = self.lights[id];
        self.lights[id] = Light {
            direction: light.direction,
            half_vector: light.half_vector,
            color: (param % 0x8000) as u16,
        };
        assert(self@ =~= start.with_light_color(param));
    }

    /// `SHININESS`: 32 parameter words, each holds 4 entries (one per byte).
    pub fn set_shininess(&mut self, params: &[u32])
        requires
            old(self)@.wf(),
        ensures
            final(self)@ == old(self)@.with_shininess(params@),
            final(self)@.wf(),
    {
        let ghost start = self@;
        let ghost target = start.with_shininess(params@).shininess_table;
        let words: usize = if params.len() < 32 {
            params.len()
        } else {
            32
        };
        for i in 0..words
            invariant
                words <= 32,
                words <= params@.len(),
                start.wf(),
                target == start.with_shininess(params@).shininess_table,
                self@ == (LightingView { shininess_table: self@.shininess_table, ..start }),
                self@.shininess_table.len() == 128,
                forall|k: int| 0 <= k < 4 * i ==> self@.shininess_table[k] == target[k],
                forall|k: int|
                    4 * i <= k < 128 ==> self@.shininess_table[k] == start.shininess_table[k],
        {
            let word: u32 = params[i];
            self.shininess_table[4 * i] = (word % 256) as u8;
            self.shininess_table[4 * i + 1] = ((word / 0x100) % 256) as u8;
            self.shininess_table[4 * i + 2] = ((word / 0x1_0000) % 256) as u8;
            self.shininess_table[4 * i + 3] = (word / 0x100_0000) as u8;
        }
        assert(self@.shininess_table =~= target);
        assert(self@ =~= start.with_shininess(params@));
    }
}

impl Default for LightingState {
    fn default() -> (r: Self)
        ensures
            r@ == unlit(),
            r@.wf(),
    {
        Self::new()
    }
}

/// Unpack BGR555 to (R, G, B) channels in 0..31.
pub fn unpack_bgr555(c: u16) -> (r: (i32, i32, i32))
    ensures
        r.0 == bgr555::red(c),
        r.1 == bgr555::green(c),
        r.2 == bgr555::blue(c),
{
    let (red, green, blue): (u32, u32, u32) = bgr555::channels(c);
    (red as i32, green as i32, blue as i32)
}

/// How much a direction faces a surface.
fn facing_factor(d: [i32; 3], n: [i32; 3]) -> (r: i64)
    ensures
        r == facing(d, n),
        0 <= r <= 4096,
{
    let dot: i64 = fmul(d[0], n[0]) as i64 + fmul(d[1], n[1]) as i64 + fmul(d[2], n[2]) as i64;
    fixed::clamp_i64(-dot, 0, ONE as i64)
}

fn reflect(light: i32, material: i32, factor: i64) -> (r: i32)
    requires
        0 <= light <= 31,
        0 <= material <= 31,
        0 <= factor <= 4096,
    ensures
        r == reflected(light as int, material as int, factor as int),
        0 <= r <= 31,
{
    proof {
        lemma_reflected_range(light as int, material as int, factor as int);
    }
    let m: i64 = light as i64 * material as i64 * factor / (31 * 4096);
    if m < 31 {
        m as i32
    } else {
        31
    }
}

/// Compute the lit color for one vertex.
///
/// - `normal_obj` is the object-space normal.
/// - `light_enable_mask` is the low 4 bits of POLYGON_ATTR (which lights apply).
#[verifier::spinoff_prover]
#[verifier::rlimit(40)]
pub fn compute_vertex_color(
    state: &LightingState,
    normal_obj: [i32; 3],
    vector_matrix: &Matrix,
    light_enable_mask: u8,
) -> (color: u16)
    requires
        state@.wf(),
    ensures
        color == state@.lit(normal_obj, *vector_matrix, light_enable_mask),
{
    let n_eye: [i32; 4] = vector_matrix.mul_vec4(
        [normal_obj[0], normal_obj[1], normal_obj[2], 0],
    );
    let n: [i32; 3] = [n_eye[0], n_eye[1], n_eye[2]];
    let ghost s = state@;

    let (em_r, em_g, em_b): (i32, i32, i32) = unpack_bgr555(state.mat_emission);
    let (am_r, am_g, am_b): (i32, i32, i32) = unpack_bgr555(state.mat_ambient);
    let (df_r, df_g, df_b): (i32, i32, i32) = unpack_bgr555(state.mat_diffuse);
    let (sp_r, sp_g, sp_b): (i32, i32, i32) = unpack_bgr555(state.mat_specular);

    // Start with emission. Ambient is contributed per enabled light and is
    // multiplied by that light's color.
    let mut r: i32 = em_r;
    let mut g: i32 = em_g;
    let mut b: i32 = em_b;

    for i in 0..4usize
        invariant
            s == state@,
            s.wf(),
            am_r == channel(s.mat_ambient, 0),
            am_g == channel(s.mat_ambient, 1),
            am_b == channel(s.mat_ambient, 2),
            df_r == channel(s.mat_diffuse, 0),
            df_g == channel(s.mat_diffuse, 1),
            df_b == channel(s.mat_diffuse, 2),
            sp_r == channel(s.mat_specular, 0),
            sp_g == channel(s.mat_specular, 1),
            sp_b == channel(s.mat_specular, 2),
            r == s.level(n, light_enable_mask, 0, i as int),
            g == s.level(n, light_enable_mask, 1, i as int),
            b == s.level(n, light_enable_mask, 2, i as int),
            0 <= r <= 31 + 93 * i,
            0 <= g <= 31 + 93 * i,
            0 <= b <= 31 + 93 * i,
    {
        let weight: u32 = match i {
            0 => 1,
            1 => 2,
            2 => 4,
            _ => 8,
        };
        if fixed::has_bit(light_enable_mask as u32, weight) {
            let light: Light = state.lights[i];
            assert(light == s.lights[i as int]);
            let (lr, lg, lb): (i32, i32, i32) = unpack_bgr555(light.color);
            let diff_factor: i64 = facing_factor(light.direction, n);
            // Specular: the squared dot product of the half-vector and the
            // normal.
            let half_dot: i64 = facing_factor(light.half_vector, n);
            proof {
                lemma_specular_range(s, i as int, n);
                assert(0 <= half_dot * half_dot <= 4096 * 4096) by (nonlinear_arith)
                    requires
                        0 <= half_dot <= 4096,
                ;
            }
            let level: i64 = half_dot * half_dot / 4096;
            let spec_factor: i64 = if state.use_shininess_table {
                let idx: usize = (level * 127 / 4096) as usize;
                state.shininess_table[idx] as i64 * 4096 / 255
            } else {
                level
            };
            assert(spec_factor == s.specular(i as int, n));
            let add_r: i32 = reflect(lr, am_r, 4096) + reflect(lr, df_r, diff_factor) + reflect(
                lr,
                sp_r,
                spec_factor,
            );
            let add_g: i32 = reflect(lg, am_g, 4096) + reflect(lg, df_g, diff_factor) + reflect(
                lg,
                sp_g,
                spec_factor,
            );
            let add_b: i32 = reflect(lb, am_b, 4096) + reflect(lb, df_b, diff_factor) + reflect(
                lb,
                sp_b,
                spec_factor,
            );
            assert(add_r == s.contribution(i as int, n, 0));
            assert(add_g == s.contribution(i as int, n, 1));
            assert(add_b == s.contribution(i as int, n, 2));
            r = r + add_r;
            g = g + add_g;
            b = b + add_b;
        }
    }
    pack_bgr555(r, g, b)
}

/// Pack three channels into BGR555, each clamped to 0..31.
fn pack_bgr555(r: i32, g: i32, b: i32) -> (c: u16)
    ensures
        c == bgr555::pack(
            fixed::clamp(r as int, 0, 31),
            fixed::clamp(g as int, 0, 31),
            fixed::clamp(b as int, 0, 31),
        ),
{
    bgr555::make(
        fixed::clamp_i64(r as i64, 0, 31) as u32,
        fixed::clamp_i64(g as i64, 0, 31) as u32,
        fixed::clamp_i64(b as i64, 0, 31) as u32,
    )
}

/// The weight of channel `k` in a color: red lowest, then green, then blue.
pub open spec fn place(k: int) -> int {
    if k == 0 {
        1
    } else if k == 1 {
        32
    } else {
        1024
    }
}

/// The exact dot product of two vectors, with 24 fractional bits.
pub open spec fn exact_dot(a: [i32; 3], b: [i32; 3]) -> int {
    a[0] * b[0] + a[1] * b[1] + a[2] * b[2]
}

/// Whether the three products of a dot product fit in 32 bits.
pub open spec fn dot_fits(a: [i32; 3], b: [i32; 3]) -> bool {
    &&& -0x800_0000_0000 <= a[0] * b[0] < 0x800_0000_0000
    &&& -0x800_0000_0000 <= a[1] * b[1] < 0x800_0000_0000
    &&& -0x800_0000_0000 <= a[2] * b[2] < 0x800_0000_0000
}

/// The only light of an enable mask with one bit.
pub open spec fn alone(mask: u8, i: int) -> bool {
    ||| mask == 1 && i == 0
    ||| mask == 2 && i == 1
    ||| mask == 4 && i == 2
    ||| mask == 8 && i == 3
}

proof fn lemma_dot3_bounds(a: [i32; 3], b: [i32; 3])
    requires
        dot_fits(a, b),
    ensures
        exact_dot(a, b) - 3 * 4096 < dot3(a, b) * 4096 <= exact_dot(a, b),
{
    matrix::law_rescale_rounds_down(a[0] * b[0]);
    matrix::law_rescale_rounds_down(a[1] * b[1]);
    matrix::law_rescale_rounds_down(a[2] * b[2]);
}

proof fn lemma_one_light(s: LightingView, n: [i32; 3], mask: u8, i: int, k: int)
    requires
        alone(mask, i),
    ensures
        s.level(n, mask, k, 4) == channel(s.mat_emission, k) + s.contribution(i, n, k),
{
    reveal_with_fuel(LightingView::level, 5);
}

/// Channel `k` of the lit color is the clamped sum of the lights.
proof fn lemma_lit_channel(s: LightingView, normal: [i32; 3], vectors: Matrix, mask: u8, k: int)
    requires
        s.wf(),
        0 <= k < 3,
    ensures
        s.lit(normal, vectors, mask) as int / place(k) % 32 == fixed::min(
            s.level(direction_by(normal, vectors), mask, k, 4),
            31,
        ),
{
    let n = direction_by(normal, vectors);
    lemma_level_range(s, n, mask, 0, 4);
    lemma_level_range(s, n, mask, 1, 4);
    lemma_level_range(s, n, mask, 2, 4);
    bgr555::law_pack_channels(
        fixed::min(s.level(n, mask, 0, 4), 31),
        fixed::min(s.level(n, mask, 1, 4), 31),
        fixed::min(s.level(n, mask, 2, 4), 31),
    );
}

proof fn lemma_dark_material(light: int, factor: int)
    ensures
        reflected(light, 0, factor) == 0,
        reflected(light, 0, factor) >= 0,
{
    assert(light * 0 * factor == 0) by (nonlinear_arith);
}

/// Full light on a material gives their product, with white as one.
proof fn lemma_full_reflection(light: int, material: int)
    requires
        0 <= light <= 31,
        0 <= material <= 31,
    ensures
        reflected(light, material, 4096) == light * material / 31,
{
    let p = light * material;
    assert(0 <= p <= 961) by (nonlinear_arith)
        requires
            0 <= light <= 31,
            0 <= material <= 31,
            p == light * material,
    ;
    assert(p * 4096 / (31int * 4096) == p / 31);
}

/// A faint factor is lost in rounding.
proof fn lemma_faint_reflection(light: int, material: int, factor: int)
    requires
        0 <= light <= 31,
        0 <= material <= 31,
        0 <= factor <= 2,
    ensures
        reflected(light, material, factor) == 0,
{
    lemma_reflected_range(light, material, factor);
    let p = light * material;
    assert(p * factor <= 961 * 2) by (nonlinear_arith)
        requires
            0 <= p <= 961,
            0 <= factor <= 2,
    ;
}

proof fn lemma_reflection_bounds(light: int, material: int, factor: int)
    requires
        0 <= light <= 31,
        0 <= material <= 31,
        0 <= factor <= 4096,
    ensures
        ({
            let c = reflected(light, material, factor);
            let p = light * material;
            0 <= c <= 31 && c * 126976 <= p * factor < (c + 1) * 126976
        }),
{
    lemma_reflected_range(light, material, factor);
    let p = light * material;
    assert(p * factor / 126976 <= 31);
}

/// With nothing but a diffuse material, a light brightens a surface by how much
/// it shines against the surface's normal: not at all from behind, by the full
/// product of light and material head-on, and in between by the share that
/// `-L . N` is of one, up to the rounding of the three products.
pub proof fn law_diffuse_follows_angle(
    s: LightingView,
    normal: [i32; 3],
    vectors: Matrix,
    mask: u8,
    i: int,
    k: int,
)
    requires
        s.wf(),
        alone(mask, i),
        0 <= k < 3,
        s.mat_emission == 0 && s.mat_ambient == 0 && s.mat_specular == 0,
        ({
            let n = matrix::transformed([normal[0], normal[1], normal[2], 0], vectors);
            dot_fits(s.lights[i].direction, [n[0], n[1], n[2]])
        }),
    ensures
        ({
            let n = matrix::transformed([normal[0], normal[1], normal[2], 0], vectors);
            let against = -exact_dot(s.lights[i].direction, [n[0], n[1], n[2]]);
            let product = (s.lights[i].color as int / place(k) % 32) * (s.mat_diffuse as int / place(
                k,
            ) % 32);
            let c = s.lit(normal, vectors, mask) as int / place(k) % 32;
            &&& against <= 0 ==> c == 0
            &&& against >= 0x100_0000 ==> c == product / 31
            &&& 0 <= against <= 0x100_0000 ==> c * 0x1F00_0000 <= product * (against + 0x3000)
                && product * against < (c + 1) * 0x1F00_0000
        }),
{
    let v = matrix::transformed([normal[0], normal[1], normal[2], 0], vectors);
    let n: [i32; 3] = [v[0], v[1], v[2]];
    let d = s.lights[i].direction;
    let light = channel(s.lights[i].color, k);
    let material = channel(s.mat_diffuse, k);
    let f = facing(d, n);
    let against = -exact_dot(d, n);
    lemma_lit_channel(s, normal, vectors, mask, k);
    lemma_one_light(s, n, mask, i, k);
    assert(direction_by(normal, vectors) == n);
    lemma_dot3_bounds(d, n);
    assert(channel(s.mat_emission, k) == 0);
    assert(channel(s.mat_ambient, k) == 0);
    assert(channel(s.mat_specular, k) == 0);
    lemma_dark_material(light, 4096);
    lemma_dark_material(light, s.specular(i, n));
    lemma_reflection_bounds(light, material, f);
    lemma_full_reflection(light, material);
    let p = light * material;
    lemma_reflected_range(light, material, f);
    let c = reflected(light, material, f);
    if against <= 0 {
        lemma_faint_reflection(light, material, f);
    }
    if 0 <= against <= 0x100_0000 {
        assert(against <= f * 4096 < against + 0x3000);
        assert(p * against <= p * (f * 4096) <= p * (against + 0x3000)) by (nonlinear_arith)
            requires
                p >= 0,
                against <= f * 4096 < against + 0x3000,
        ;
        assert(p * (f * 4096) == (p * f) * 4096) by (nonlinear_arith);
    }
}

/// With nothing but a diffuse material, a surface that is turned further towards the
/// light is never darker; two turns closer than the rounding of the products, three
/// 4096ths, are not compared.
pub proof fn law_diffuse_grows_with_angle(
    s: LightingView,
    normal: [i32; 3],
    turned: [i32; 3],
    vectors: Matrix,
    mask: u8,
    i: int,
    k: int,
)
    requires
        s.wf(),
        alone(mask, i),
        0 <= k < 3,
        s.mat_emission == 0 && s.mat_ambient == 0 && s.mat_specular == 0,
        ({
            let d = s.lights[i].direction;
            let n = matrix::transformed([normal[0], normal[1], normal[2], 0], vectors);
            let t = matrix::transformed([turned[0], turned[1], turned[2], 0], vectors);
            &&& dot_fits(d, [n[0], n[1], n[2]])
            &&& dot_fits(d, [t[0], t[1], t[2]])
            &&& -exact_dot(d, [n[0], n[1], n[2]]) + 0x3000 <= -exact_dot(d, [t[0], t[1], t[2]])
        }),
    ensures
        s.lit(normal, vectors, mask) as int / place(k) % 32 <= s.lit(turned, vectors, mask) as int
            / place(k) % 32,
{
    let a = direction_by(normal, vectors);
    let b = direction_by(turned, vectors);
    let d = s.lights[i].direction;
    let light = channel(s.lights[i].color, k);
    let material = channel(s.mat_diffuse, k);
    lemma_lit_channel(s, normal, vectors, mask, k);
    lemma_lit_channel(s, turned, vectors, mask, k);
    lemma_one_light(s, a, mask, i, k);
    lemma_one_light(s, b, mask, i, k);
    lemma_dot3_bounds(d, a);
    lemma_dot3_bounds(d, b);
    assert(channel(s.mat_ambient, k) == 0 && channel(s.mat_specular, k) == 0);
    lemma_dark_material(light, 4096);
    lemma_dark_material(light, s.specular(i, a));
    lemma_dark_material(light, s.specular(i, b));
    let (f, g) = (facing(d, a), facing(d, b));
    assert(f <= g);
    lemma_reflection_bounds(light, material, f);
    lemma_reflection_bounds(light, material, g);
    let p = light * material;
    assert(p * f <= p * g) by (nonlinear_arith)
        requires
            f <= g,
            p == light * material,
            light >= 0,
            material >= 0,
    ;
}

/// An ambient material takes the light's color whatever way the light shines.
pub proof fn law_ambient_ignores_direction(
    s: LightingView,
    normal: [i32; 3],
    vectors: Matrix,
    mask: u8,
    i: int,
    k: int,
)
    requires
        s.wf(),
        alone(mask, i),
        0 <= k < 3,
        s.mat_emission == 0 && s.mat_diffuse == 0 && s.mat_specular == 0,
    ensures
        s.lit(normal, vectors, mask) as int / place(k) % 32 == (s.lights[i].color as int / place(k)
            % 32) * (s.mat_ambient as int / place(k) % 32) / 31,
{
    let n = direction_by(normal, vectors);
    let light = channel(s.lights[i].color, k);
    lemma_lit_channel(s, normal, vectors, mask, k);
    lemma_one_light(s, n, mask, i, k);
    assert(channel(s.mat_emission, k) == 0);
    assert(channel(s.mat_diffuse, k) == 0);
    assert(channel(s.mat_specular, k) == 0);
    lemma_dark_material(light, facing(s.lights[i].direction, n));
    lemma_dark_material(light, s.specular(i, n));
    lemma_full_reflection(light, channel(s.mat_ambient, k));
    lemma_reflected_range(light, channel(s.mat_ambient, k), 4096);
}

proof fn lemma_square_bounds(h: int, against: int)
    requires
        0 <= against <= 0x100_0000,
        against <= h * 4096 < against + 0x3000,
        0 <= h <= 4096,
    ensures
        against * against <= h * h * 0x100_0000 <= (against + 0x3000) * (against + 0x3000),
        h * h / 4096 * 4096 <= h * h < (h * h / 4096 + 1) * 4096,
{
    let g = h * 4096;
    let top = against + 0x3000;
    assert(against * against <= g * g <= top * top) by (nonlinear_arith)
        requires
            0 <= against <= g < top,
    ;
    assert(g * g == h * h * 0x100_0000) by (nonlinear_arith)
        requires
            g == h * 4096,
    ;
}

/// With nothing but a specular material and no table, the highlight goes with
/// the square of how much the half-vector lies against the normal: none from
/// behind, the full product head-on.
pub proof fn law_highlight_follows_square(
    s: LightingView,
    normal: [i32; 3],
    vectors: Matrix,
    mask: u8,
    i: int,
    k: int,
)
    requires
        s.wf(),
        alone(mask, i),
        0 <= k < 3,
        !s.use_shininess_table,
        s.mat_emission == 0 && s.mat_ambient == 0 && s.mat_diffuse == 0,
        ({
            let n = matrix::transformed([normal[0], normal[1], normal[2], 0], vectors);
            dot_fits(s.lights[i].half_vector, [n[0], n[1], n[2]])
        }),
    ensures
        ({
            let n = matrix::transformed([normal[0], normal[1], normal[2], 0], vectors);
            let against = -exact_dot(s.lights[i].half_vector, [n[0], n[1], n[2]]);
            let product = (s.lights[i].color as int / place(k) % 32) * (s.mat_specular as int / place(
                k,
            ) % 32);
            let c = s.lit(normal, vectors, mask) as int / place(k) % 32;
            &&& against <= 0 ==> c == 0
            &&& against >= 0x100_0000 ==> c == product / 31
            &&& 0 <= against <= 0x100_0000 ==> c * 0x1F_0000_0000_0000 <= product * ((against
                + 0x3000) * (against + 0x3000)) && product * (against * against) < ((c + 1) * 126976
                + product) * 0x10_0000_0000
        }),
{
    let v = matrix::transformed([normal[0], normal[1], normal[2], 0], vectors);
    let n: [i32; 3] = [v[0], v[1], v[2]];
    let hv = s.lights[i].half_vector;
    let light = channel(s.lights[i].color, k);
    let material = channel(s.mat_specular, k);
    let h = facing(hv, n);
    let level = h * h / 4096;
    let against = -exact_dot(hv, n);
    lemma_lit_channel(s, normal, vectors, mask, k);
    lemma_one_light(s, n, mask, i, k);
    assert(direction_by(normal, vectors) == n);
    lemma_dot3_bounds(hv, n);
    assert(channel(s.mat_emission, k) == 0);
    assert(channel(s.mat_ambient, k) == 0);
    assert(channel(s.mat_diffuse, k) == 0);
    lemma_dark_material(light, 4096);
    lemma_dark_material(light, facing(s.lights[i].direction, n));
    lemma_specular_range(s, i, n);
    lemma_reflection_bounds(light, material, level);
    lemma_full_reflection(light, material);
    lemma_reflected_range(light, material, level);
    let p = light * material;
    let c = reflected(light, material, level);
    if against <= 0 {
        assert(h * h <= 4) by (nonlinear_arith)
            requires
                0 <= h <= 2,
        ;
        lemma_faint_reflection(light, material, level);
    }
    if against >= 0x100_0000 {
        assert(h == 4096);
        assert(4096int * 4096 / 4096 == 4096);
    }
    if 0 <= against <= 0x100_0000 {
        lemma_square_bounds(h, against);
        let top = (against + 0x3000) * (against + 0x3000);
        let low = against * against;
        assert(p * level * 0x10_0000_0000 <= p * top) by (nonlinear_arith)
            requires
                p >= 0,
                level * 4096 * 0x100_0000 <= top,
        ;
        assert(p * low < p * ((level + 1) * 0x10_0000_0000) || p == 0) by (nonlinear_arith)
            requires
                p >= 0,
                low < (level + 1) * 4096 * 0x100_0000,
        ;
        assert(p * ((level + 1) * 0x10_0000_0000) == (p * level + p) * 0x10_0000_0000)
            by (nonlinear_arith);
        assert(p == 0 ==> p * low == 0) by (nonlinear_arith);
    }
}

/// With the table, the highlight is the share that the table gives for the
/// squared value: the first entry from behind, the last one head-on, and in
/// between the entry at the same place of the table as the square is of one.
pub proof fn law_highlight_through_table(
    s: LightingView,
    normal: [i32; 3],
    vectors: Matrix,
    mask: u8,
    i: int,
    k: int,
)
    requires
        s.wf(),
        alone(mask, i),
        0 <= k < 3,
        s.use_shininess_table,
        s.mat_emission == 0 && s.mat_ambient == 0 && s.mat_diffuse == 0,
        ({
            let n = matrix::transformed([normal[0], normal[1], normal[2], 0], vectors);
            dot_fits(s.lights[i].half_vector, [n[0], n[1], n[2]])
        }),
    ensures
        ({
            let n = matrix::transformed([normal[0], normal[1], normal[2], 0], vectors);
            let against = -exact_dot(s.lights[i].half_vector, [n[0], n[1], n[2]]);
            let product = (s.lights[i].color as int / place(k) % 32) * (s.mat_specular as int / place(
                k,
            ) % 32);
            let c = s.lit(normal, vectors, mask) as int / place(k) % 32;
            exists|j: int|
                0 <= j < 128 && c == product * (#[trigger] s.shininess_table[j] as int * 4096 / 255)
                    / 126976 && (against <= 0 ==> j == 0) && (against >= 0x100_0000 ==> j == 127)
                    && (0 <= against <= 0x100_0000 ==> j * 0x1_0000_0000_0000 <= 127 * ((against
                    + 0x3000) * (against + 0x3000)) && 127 * (against * against) < ((j + 1) * 4096
                    + 127) * 0x10_0000_0000)
        }),
{
    let v = matrix::transformed([normal[0], normal[1], normal[2], 0], vectors);
    let n: [i32; 3] = [v[0], v[1], v[2]];
    let hv = s.lights[i].half_vector;
    let light = channel(s.lights[i].color, k);
    let material = channel(s.mat_specular, k);
    let h = facing(hv, n);
    let level = h * h / 4096;
    let against = -exact_dot(hv, n);
    lemma_lit_channel(s, normal, vectors, mask, k);
    lemma_one_light(s, n, mask, i, k);
    assert(direction_by(normal, vectors) == n);
    lemma_dot3_bounds(hv, n);
    assert(channel(s.mat_emission, k) == 0);
    assert(channel(s.mat_ambient, k) == 0);
    assert(channel(s.mat_diffuse, k) == 0);
    lemma_dark_material(light, 4096);
    lemma_dark_material(light, facing(s.lights[i].direction, n));
    lemma_specular_range(s, i, n);
    let j = level * 127 / 4096;
    let share = s.shininess_table[j] as int * 4096 / 255;
    assert(0 <= share <= 4096);
    lemma_reflection_bounds(light, material, share);
    lemma_reflected_range(light, material, share);
    let p = light * material;
    assert(reflected(light, material, share) == p * share / 126976);
    if against <= 0 {
        assert(h * h <= 4) by (nonlinear_arith)
            requires
                0 <= h <= 2,
        ;
        assert(level == 0);
    }
    if against >= 0x100_0000 {
        assert(h == 4096);
        assert(4096int * 4096 / 4096 == 4096);
    }
    if 0 <= against <= 0x100_0000 {
        lemma_square_bounds(h, against);
    }
    assert(s.shininess_table[j] as int * 4096 / 255 == share);
}

/// The parts of a material add up: what one light gives is the clamped sum of
/// emission and of what it gives on each of the three other parts alone.
pub proof fn law_material_parts_add_up(
    s: LightingView,
    normal: [i32; 3],
    vectors: Matrix,
    mask: u8,
    i: int,
    k: int,
)
    requires
        s.wf(),
        alone(mask, i),
        0 <= k < 3,
    ensures
        ({
            let ambient = LightingView { mat_emission: 0, mat_diffuse: 0, mat_specular: 0, ..s };
            let diffuse = LightingView { mat_emission: 0, mat_ambient: 0, mat_specular: 0, ..s };
            let specular = LightingView { mat_emission: 0, mat_ambient: 0, mat_diffuse: 0, ..s };
            let sum = s.mat_emission as int / place(k) % 32 + ambient.lit(
                normal,
                vectors,
                mask,
            ) as int / place(k) % 32 + diffuse.lit(normal, vectors, mask) as int / place(k) % 32
                + specular.lit(normal, vectors, mask) as int / place(k) % 32;
            s.lit(normal, vectors, mask) as int / place(k) % 32 == if sum > 31 { 31 } else { sum }
        }),
{
    let n = direction_by(normal, vectors);
    let light = channel(s.lights[i].color, k);
    let ambient = LightingView { mat_emission: 0, mat_diffuse: 0, mat_specular: 0, ..s };
    let diffuse = LightingView { mat_emission: 0, mat_ambient: 0, mat_specular: 0, ..s };
    let specular = LightingView { mat_emission: 0, mat_ambient: 0, mat_diffuse: 0, ..s };
    lemma_lit_channel(s, normal, vectors, mask, k);
    lemma_lit_channel(ambient, normal, vectors, mask, k);
    lemma_lit_channel(diffuse, normal, vectors, mask, k);
    lemma_lit_channel(specular, normal, vectors, mask, k);
    lemma_one_light(s, n, mask, i, k);
    lemma_one_light(ambient, n, mask, i, k);
    lemma_one_light(diffuse, n, mask, i, k);
    lemma_one_light(specular, n, mask, i, k);
    assert(channel(0, k) == 0);
    let f = facing(s.lights[i].direction, n);
    let g = s.specular(i, n);
    assert(ambient.specular(i, n) == g && diffuse.specular(i, n) == g && specular.specular(i, n)
        == g);
    lemma_specular_range(s, i, n);
    lemma_dark_material(light, 4096);
    lemma_dark_material(light, f);
    lemma_dark_material(light, g);
    lemma_reflected_range(light, channel(s.mat_ambient, k), 4096);
    lemma_reflected_range(light, channel(s.mat_diffuse, k), f);
    lemma_reflected_range(light, channel(s.mat_specular, k), g);
}

/// The four lights of a mask, one by one.
proof fn lemma_level_sum(s: LightingView, n: [i32; 3], mask: u8, k: int)
    ensures
        s.level(n, mask, k, 4) == channel(s.mat_emission, k) + (if mask as int % 2 == 1 {
            s.contribution(0, n, k)
        } else {
            0
        }) + (if mask as int / 2 % 2 == 1 {
            s.contribution(1, n, k)
        } else {
            0
        }) + (if mask as int / 4 % 2 == 1 {
            s.contribution(2, n, k)
        } else {
            0
        }) + (if mask as int / 8 % 2 == 1 {
            s.contribution(3, n, k)
        } else {
            0
        }),
{
    reveal_with_fuel(LightingView::level, 5);
    assert(mask as int / 1 == mask);
}

/// Setting a bit that is clear changes no other bit.
proof fn lemma_one_more_bit(mask: int, one: int)
    requires
        0 <= mask < 16,
        one == 1 || one == 2 || one == 4 || one == 8,
        mask / one % 2 == 0,
    ensures
        ((mask + one) % 2 == 1) == (one == 1 || mask % 2 == 1),
        ((mask + one) / 2 % 2 == 1) == (one == 2 || mask / 2 % 2 == 1),
        ((mask + one) / 4 % 2 == 1) == (one == 4 || mask / 4 % 2 == 1),
        ((mask + one) / 8 % 2 == 1) == (one == 8 || mask / 8 % 2 == 1),
        mask + one < 16,
        one == 1 ==> mask % 2 == 0,
{
}

/// Lights add up: switching on one more light adds to each channel what that
/// light gives alone beyond emission, up to white.
pub proof fn law_lights_add_up(
    s: LightingView,
    normal: [i32; 3],
    vectors: Matrix,
    mask: u8,
    one: u8,
    i: int,
    k: int,
)
    requires
        s.wf(),
        alone(one, i),
        mask < 16,
        mask as int / one as int % 2 == 0,
        0 <= k < 3,
    ensures
        ({
            let both = (mask + one) as u8;
            let sum = s.lit(normal, vectors, mask) as int / place(k) % 32 + s.lit(
                normal,
                vectors,
                one,
            ) as int / place(k) % 32 - s.mat_emission as int / place(k) % 32;
            s.lit(normal, vectors, both) as int / place(k) % 32 == if sum > 31 { 31 } else { sum }
        }),
{
    let n = direction_by(normal, vectors);
    let both = (mask + one) as u8;
    lemma_lit_channel(s, normal, vectors, mask, k);
    lemma_lit_channel(s, normal, vectors, one, k);
    lemma_lit_channel(s, normal, vectors, both, k);
    lemma_one_light(s, n, one, i, k);
    lemma_level_range(s, n, mask, k, 4);
    lemma_level_range(s, n, one, k, 4);
    lemma_level_sum(s, n, mask, k);
    lemma_level_sum(s, n, both, k);
    lemma_one_more_bit(mask as int, one as int);
    assert(s.level(n, both, k, 4) == s.level(n, mask, k, 4) + s.contribution(i, n, k));
}

/// `DIF_AMB` and `SPE_EMI` carry two colors and a switch each: the low half the
/// first color with the switch on top, the high half the second color.
pub proof fn law_material_words(s: LightingView, first: u16, on: bool, second: u16)
    requires
        first < 0x8000,
        second < 0x8000,
    ensures
        ({
            let word = (first + if on { 0x8000int } else { 0 } + second * 0x1_0000) as u32;
            &&& s.with_dif_amb(word) == (LightingView {
                mat_diffuse: first,
                set_color_from_diffuse: on,
                mat_ambient: second,
                ..s
            })
            &&& s.with_spe_emi(word) == (LightingView {
                mat_specular: first,
                use_shininess_table: on,
                mat_emission: second,
                ..s
            })
        }),
{
    let x = first + if on { 0x8000int } else { 0 } + second * 0x1_0000;
    assert(x % 0x8000 == first);
    assert(x / 0x1_0000 % 0x8000 == second);
    assert(x / 0x8000 % 2 == if on { 1int } else { 0 });
}

proof fn lemma_vector_word(light: int, x: int, y: int, z: int)
    requires
        0 <= light < 4,
        -512 <= x < 512,
        -512 <= y < 512,
        -512 <= z < 512,
    ensures
        ({
            let word = light * 0x4000_0000 + z % 0x400 * 0x10_0000 + y % 0x400 * 0x400 + x % 0x400;
            let w = word as u32;
            &&& 0 <= word <= u32::MAX
            &&& word / 0x4000_0000 == light
            &&& fixed::sign10(w) == x
            &&& fixed::sign10(w / 0x400) == y
            &&& fixed::sign10(w / 0x10_0000) == z
        }),
{
    let (a, b, c) = (x % 0x400, y % 0x400, z % 0x400);
    let word = light * 0x4000_0000 + c * 0x10_0000 + b * 0x400 + a;
    assert(0 <= a < 0x400 && 0 <= b < 0x400 && 0 <= c < 0x400);
    assert(word / 0x400 == light * 0x10_0000 + c * 0x400 + b);
    assert(word / 0x10_0000 == light * 0x400 + c);
    assert(word % 0x400 == a);
    assert((light * 0x10_0000 + c * 0x400 + b) % 0x400 == b);
    assert((light * 0x400 + c) % 0x400 == c);
}

/// `LIGHT_VECTOR` names a light in its top two bits and carries its direction,
/// three signed 9-bit fractions from the lowest field up. Under the identity the
/// light then shines that way; its half-vector is the mean of that direction and
/// the line of sight, and all else stays.
pub proof fn law_light_vector_fields(s: LightingView, light: int, x: int, y: int, z: int)
    requires
        s.wf(),
        0 <= light < 4,
        -512 <= x < 512,
        -512 <= y < 512,
        -512 <= z < 512,
    ensures
        ({
            let word = (light * 0x4000_0000 + z % 0x400 * 0x10_0000 + y % 0x400 * 0x400 + x
                % 0x400) as u32;
            let after = s.with_light_vector(word, matrix::identity());
            let d = after.lights[light].direction;
            let h = after.lights[light].half_vector;
            &&& d[0] == x * 8 && d[1] == y * 8 && d[2] == z * 8
            &&& -1 <= 2 * h[0] - d[0] <= 1
            &&& -1 <= 2 * h[1] - d[1] <= 1
            &&& -1 <= 2 * h[2] - (d[2] - 4096) <= 1
            &&& after.lights[light].color == s.lights[light].color
            &&& forall|j: int|
                0 <= j < 4 && j != light ==> #[trigger] after.lights[j] == s.lights[j]
            &&& after == (LightingView { lights: after.lights, ..s })
        }),
{
    lemma_vector_word(light, x, y, z);
    matrix::law_identity_transform([(x * 8) as i32, (y * 8) as i32, (z * 8) as i32, 0]);
}

/// A light's direction turns with the vector matrix.
pub proof fn law_light_vector_turns(s: LightingView, word: u32, vectors: Matrix)
    requires
        s.wf(),
    ensures
        ({
            let i = word as int / 0x4000_0000;
            let plain = s.with_light_vector(word, matrix::identity()).lights[i].direction;
            let turned = s.with_light_vector(word, vectors).lights[i].direction;
            let v = matrix::transformed([plain[0], plain[1], plain[2], 0], vectors);
            turned == [v[0], v[1], v[2]]
        }),
{
    let x = (fixed::sign10(word) * 8) as i32;
    let y = (fixed::sign10(word / 0x400) * 8) as i32;
    let z = (fixed::sign10(word / 0x10_0000) * 8) as i32;
    matrix::law_identity_transform([x, y, z, 0]);
}

/// `LIGHT_COLOR` sets the color of the light that its top two bits name, and
/// nothing else.
pub proof fn law_light_color_fields(s: LightingView, light: int, color: u16)
    requires
        s.wf(),
        0 <= light < 4,
        color < 0x8000,
    ensures
        ({
            let after = s.with_light_color((light * 0x4000_0000 + color) as u32);
            &&& after.lights[light].color == color
            &&& after.lights[light].direction == s.lights[light].direction
            &&& after.lights[light].half_vector == s.lights[light].half_vector
            &&& forall|j: int|
                0 <= j < 4 && j != light ==> #[trigger] after.lights[j] == s.lights[j]
            &&& after == (LightingView { lights: after.lights, ..s })
        }),
{
}

/// `SHININESS` fills the table in order, four entries to a word, the lowest byte
/// first.
pub proof fn law_shininess_in_order(s: LightingView, params: Seq<u32>, w: int)
    requires
        s.wf(),
        0 <= w < params.len(),
        w < 32,
    ensures
        ({
            let t = s.with_shininess(params).shininess_table;
            &&& t.len() == 128
            &&& t[4 * w] + 0x100 * t[4 * w + 1] + 0x1_0000 * t[4 * w + 2] + 0x100_0000 * t[4 * w
                + 3] == params[w]
        }),
{
    let x = params[w] as int;
    let t = s.with_shininess(params).shininess_table;
    assert((4 * w) / 4 == w && (4 * w + 1) / 4 == w && (4 * w + 2) / 4 == w && (4 * w + 3) / 4
        == w);
    assert((4 * w) % 4 == 0 && (4 * w + 1) % 4 == 1 && (4 * w + 2) % 4 == 2 && (4 * w + 3) % 4
        == 3);
}

} // verus!
