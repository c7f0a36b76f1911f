#![allow(unused_imports)]

use nds_core::gpu3d::lighting::unpack_bgr555;
use nds_core::gpu3d::{compute_vertex_color, LightingState, Matrix, ONE};

fn light_vector_param(index: u32, x: i32, y: i32, z: i32) -> u32 {
    let pack = |v: i32| (v as u32) & 0x3FF;
    (index << 30) | pack(x) | (pack(y) << 10) | (pack(z) << 20)
}

#[test]
fn test_disabled_lights_return_emission_only() {
    let mut s = LightingState::new();
    s.set_dif_amb((0x0421 << 16) | 0); // ambient = (1, 1, 1) in BGR555 channels
    s.set_spe_emi((0x4210 << 16) | 0); // emission = (16, 16, 16)? Let's pick (16,16,16)
                                       // Compose emission = R=16, G=16, B=16  →  packed = 16 | (16<<5) | (16<<10) = 0x4210
                                       // ambient = (1,1,1) packed = 1 | (1<<5) | (1<<10) = 0x0421
    let c = compute_vertex_color(&s, [0, 0, ONE], &Matrix::identity(), 0);
    let (r, g, b) = unpack_bgr555(c);
    assert_eq!((r, g, b), (16, 16, 16), "ambient needs an enabled light");
}

#[test]
fn test_ambient_is_per_enabled_light_color() {
    let mut s = LightingState::new();
    s.set_dif_amb(0x0421 << 16); // ambient = (1, 1, 1)
    s.lights[0].color = 0x001F; // red only
    s.lights[1].color = 0x03E0; // green only

    let c = compute_vertex_color(&s, [0, 0, ONE], &Matrix::identity(), 0b0011);
    let (r, g, b) = unpack_bgr555(c);

    assert_eq!((r, g, b), (1, 1, 0));
}

#[test]
fn test_specular_highlight_can_contribute() {
    let mut s = LightingState::new();
    s.set_spe_emi(0x7FFF); // white specular, no emission
    s.set_light_vector(light_vector_param(0, 0, 0, -512), &Matrix::identity());
    s.lights[0].color = 0x7FFF;

    let c = compute_vertex_color(&s, [0, 0, ONE], &Matrix::identity(), 1);
    let (r, g, b) = unpack_bgr555(c);

    assert_eq!((r, g, b), (31, 31, 31));
}

#[test]
fn test_specular_uses_light_half_vector() {
    let mut s = LightingState::new();
    s.set_spe_emi(0x7FFF);
    s.set_light_vector(light_vector_param(0, -512, 0, 0), &Matrix::identity());
    s.lights[0].color = 0x7FFF;

    let c = compute_vertex_color(&s, [ONE, 0, 0], &Matrix::identity(), 1);
    let (r, g, b) = unpack_bgr555(c);

    assert_eq!((r, g, b), (7, 7, 7));
}

#[test]
fn test_disabled_lights_contribute_nothing() {
    let mut s = LightingState::new();
    // Bright white light pointed at +Z. Default material is black,
    // so contribution is zero anyway, but more importantly the
    // light_enable_mask of 0 should bypass lights entirely.
    s.set_light_vector(light_vector_param(0, 0, 0, -512), &Matrix::identity());
    s.lights[0].color = 0x7FFF;
    let c = compute_vertex_color(&s, [0, 0, ONE], &Matrix::identity(), 0);
    assert_eq!(c, 0, "all-disabled lights → black");
}

#[test]
fn test_set_dif_amb_unpacks_correctly() {
    let mut s = LightingState::new();
    s.set_dif_amb(0x4321_8765);
    // low 15 bits = 0x0765, ambient = high 15 bits of (param>>16) = 0x4321 & 0x7FFF = 0x4321
    assert_eq!(s.mat_diffuse, 0x0765);
    assert!(s.set_color_from_diffuse, "bit 15 was set");
    assert_eq!(s.mat_ambient, 0x4321);
}

#[test]
fn test_set_spe_emi_unpacks_correctly() {
    let mut s = LightingState::new();
    s.set_spe_emi(0x4321_8765);

    assert_eq!(s.mat_specular, 0x0765);
    assert!(s.use_shininess_table, "bit 15 was set");
    assert_eq!(s.mat_emission, 0x4321);
}

#[test]
fn test_light_vector_unpacks_index() {
    let mut s = LightingState::new();
    // index 2 (bits 30-31 = 0b10 → 2), all zero direction.
    s.set_light_vector(2 << 30, &Matrix::identity());
    // We just check the call dispatches by index; the direction is
    // identity-transformed (still 0, 0, 0). Hard to assert directly
    // without verifying internal state, but reading back light[2] is
    // a "stored to right slot" check.
    assert_eq!(s.lights[2].direction, [0, 0, 0]);
    assert_eq!(s.lights[2].half_vector, [0, 0, -ONE / 2]);
}

#[test]
fn test_light_color_unpacks_index_and_color() {
    let mut s = LightingState::new();
    s.set_light_color((3 << 30) | 0x7FFF);

    assert_eq!(s.lights[3].color, 0x7FFF);
    assert_eq!(s.lights[0].color, 0);
    assert_eq!(s.lights[1].color, 0);
    assert_eq!(s.lights[2].color, 0);
}

#[test]
fn test_shininess_table_loads_4_per_word() {
    let mut s = LightingState::new();
    let params: Vec<u32> = (0..32)
        .map(|w| {
            // Each word is 4 incrementing bytes: 0,1,2,3 ; 4,5,6,7 ; ...
            let base = (w * 4) as u32;
            base | ((base + 1) << 8) | ((base + 2) << 16) | ((base + 3) << 24)
        })
        .collect();
    s.set_shininess(&params);
    for i in 0..128 {
        assert_eq!(
            s.shininess_table[i] as usize, i,
            "entry {} should be {}",
            i, i
        );
    }
}
