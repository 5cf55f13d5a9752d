//! Dynamic voxel clouds: UI elements as particle fields steered by a mouse or gaze vector.
use vstd::prelude::*;

use crate::ui::canvas::{in_canvas, lemma_painted_compose, painted, Stroke};
use crate::ui::framebuffer::Framebuffer;

verus! {

/// Number of particles in a cloud.
pub const PARTICLE_COUNT: i32 = 24;

/// Integer division rounding toward zero, as `/` on `i32` does.
pub open spec fn trunc_div(a: int, b: int) -> int {
    if a >= 0 {
        a / b
    } else {
        -((-a) / b)
    }
}

/// Jitter spread of a cloud: an eighth of the intensity plus four.
pub open spec fn cloud_spread(intensity: u8) -> int {
    intensity / 8 + 4
}

/// Horizontal offset of particle `index` from the origin.
pub open spec fn particle_dx(vector_x: int, index: int, intensity: u8) -> int {
    let spread = cloud_spread(intensity);
    trunc_div(vector_x * index, 24) + ((index * 17) % spread - spread / 2)
}

/// Vertical offset of particle `index` from the origin.
pub open spec fn particle_dy(vector_y: int, index: int, intensity: u8) -> int {
    let spread = cloud_spread(intensity);
    trunc_div(vector_y * index, 24) + (((index * 17) / 3) % spread - spread / 2)
}

/// Intensity of particle `index`: the cloud intensity less three per step, at least zero.
pub open spec fn particle_fade(intensity: u8, index: int) -> u8 {
    if intensity >= 3 * index {
        (intensity - 3 * index) as u8
    } else {
        0
    }
}

/// What particle `index` draws: nothing when its position is off the canvas, else a glass
/// node with two soft halo pixels (right and below) at half its intensity.
pub open spec fn particle_strokes(origin_x: int, origin_y: int, vector_x: int, vector_y: int, intensity: u8, index: int) -> Seq<Stroke> {
    let px = origin_x + particle_dx(vector_x, index, intensity);
    let py = origin_y + particle_dy(vector_y, index, intensity);
    let fade = particle_fade(intensity, index);
    if in_canvas(px, py) {
        seq![
            Stroke::GlassNode(px, py, fade),
            Stroke::Pixel(px + 1, py, (0x40u8, 0x80u8, 0xffu8, fade / 2)),
            Stroke::Pixel(px, py + 1, (0x30u8, 0x60u8, 0xc0u8, fade / 2)),
        ]
    } else {
        Seq::empty()
    }
}

/// The strokes of the first `n` particles.
pub open spec fn voxel_cloud_strokes(origin_x: int, origin_y: int, vector_x: int, vector_y: int, intensity: u8, n: int) -> Seq<Stroke>
    decreases n,
{
    if n <= 0 {
        Seq::empty()
    } else {
        voxel_cloud_strokes(origin_x, origin_y, vector_x, vector_y, intensity, n - 1) + particle_strokes(
            origin_x,
            origin_y,
            vector_x,
            vector_y,
            intensity,
            n - 1,
        )
    }
}

/// What a cloud needs so that drawing it computes only `i32` values.
pub open spec fn voxel_cloud_fits(origin_x: int, origin_y: int, vector_x: int, vector_y: int, intensity: u8) -> bool {
    &&& i32::MIN <= vector_x * 23 <= i32::MAX
    &&& i32::MIN <= vector_y * 23 <= i32::MAX
    &&& forall|index: int|
        0 <= index < 24 ==> i32::MIN <= origin_x + #[trigger] particle_dx(vector_x, index, intensity) <= i32::MAX
            && i32::MIN <= origin_y + particle_dy(vector_y, index, intensity) <= i32::MAX
}

/// Checks `voxel_cloud_fits`.
pub fn voxel_cloud_fits_check(origin_x: i32, origin_y: i32, vector_x: i32, vector_y: i32, intensity: u8) -> (fits: bool)
    ensures
        fits == voxel_cloud_fits(origin_x as int, origin_y as int, vector_x as int, vector_y as int, intensity),
{
    let vx = vector_x as i64;
    let vy = vector_y as i64;
    if vx * 23 < i32::MIN as i64 || vx * 23 > i32::MAX as i64 || vy * 23 < i32::MIN as i64 || vy * 23 > i32::MAX as i64 {
        return false;
    }
    let spread = intensity as i64 / 8 + 4;
    let mut index: i64 = 0;
    while index < 24
        invariant
            0 <= index <= 24,
            vx == vector_x,
            vy == vector_y,
            spread == cloud_spread(intensity),
            i32::MIN <= vector_x * 23 <= i32::MAX,
            i32::MIN <= vector_y * 23 <= i32::MAX,
            forall|k: int|
                0 <= k < index ==> i32::MIN <= origin_x + #[trigger] particle_dx(vector_x as int, k, intensity) <= i32::MAX
                    && i32::MIN <= origin_y + particle_dy(vector_y as int, k, intensity) <= i32::MAX,
        decreases 24 - index,
    {
        proof {
            assert(i32::MIN <= vx * index <= i32::MAX) by (nonlinear_arith)
                requires
                    i32::MIN <= vx * 23 <= i32::MAX,
                    0 <= index <= 23,
            ;
            assert(i32::MIN <= vy * index <= i32::MAX) by (nonlinear_arith)
                requires
                    i32::MIN <= vy * 23 <= i32::MAX,
                    0 <= index <= 23,
            ;
        }
        let phase = index * 17;
        let dx = (vx * index) / 24 + ((phase % spread) - spread / 2);
        let dy = (vy * index) / 24 + (((phase / 3) % spread) - spread / 2);
        let px = origin_x as i64 + dx;
        let py = origin_y as i64 + dy;
        assert(dx == particle_dx(vector_x as int, index as int, intensity));
        assert(dy == particle_dy(vector_y as int, index as int, intensity));
        if px < i32::MIN as i64 || px > i32::MAX as i64 || py < i32::MIN as i64 || py > i32::MAX as i64 {
            return false;
        }
        index = index + 1;
    }
    true
}

/// Renders a refracting voxel cloud of 24 particles steered by an interaction vector.
pub fn draw_dynamic_voxel_cloud(
    target: &mut Framebuffer,
    origin_x: i32,
    origin_y: i32,
    vector_x: i32,
    vector_y: i32,
    intensity: u8,
)
    requires
        old(target).wf(),
        voxel_cloud_fits(origin_x as int, origin_y as int, vector_x as int, vector_y as int, intensity),
    ensures
        final(target).wf(),
        final(target).is_ready() == old(target).is_ready(),
        painted(
            old(target).bytes(),
            final(target).bytes(),
            voxel_cloud_strokes(origin_x as int, origin_y as int, vector_x as int, vector_y as int, intensity, 24),
        ),
{
    let ghost before = target.bytes();
    proof {
        target.lemma_bytes_len();
        crate::ui::canvas::lemma_painted_nothing(before);
    }
    let particle_count = PARTICLE_COUNT;
    let spread = intensity as i32 / 8 + 4;
    let mut index: i32 = 0;
    while index < particle_count
        invariant
            0 <= index <= 24,
            particle_count == 24,
            spread == cloud_spread(intensity),
            voxel_cloud_fits(origin_x as int, origin_y as int, vector_x as int, vector_y as int, intensity),
            target.wf(),
            target.is_ready() == old(target).is_ready(),
            before == old(target).bytes(),
            painted(
                before,
                target.bytes(),
                voxel_cloud_strokes(origin_x as int, origin_y as int, vector_x as int, vector_y as int, intensity, index as int),
            ),
        decreases 24 - index,
    {
        proof {
            assert(i32::MIN <= vector_x * index <= i32::MAX) by (nonlinear_arith)
                requires
                    i32::MIN <= vector_x * 23 <= i32::MAX,
                    0 <= index <= 23,
            ;
            assert(i32::MIN <= vector_y * index <= i32::MAX) by (nonlinear_arith)
                requires
                    i32::MIN <= vector_y * 23 <= i32::MAX,
                    0 <= index <= 23,
            ;
            assert(i32::MIN <= origin_x + particle_dx(vector_x as int, index as int, intensity) <= i32::MAX);
        }
        let phase = index * 17;
        let offset_x = (vector_x * index / particle_count) + ((phase % spread) - spread / 2);
        let offset_y = (vector_y * index / particle_count) + (((phase / 3) % spread) - spread / 2);
        assert(offset_x == particle_dx(vector_x as int, index as int, intensity));
        assert(offset_y == particle_dy(vector_y as int, index as int, intensity));
        let px = origin_x + offset_x;
        let py = origin_y + offset_y;
        let ghost prev = voxel_cloud_strokes(origin_x as int, origin_y as int, vector_x as int, vector_y as int, intensity, index as int);
        let ghost mid = target.bytes();
        if px >= 0 && py >= 0 && (px as usize) < 800 && (py as usize) < 600 {
            let step = (index as u8) * 3;
            let fade = intensity.saturating_sub(step);
            assert(fade == particle_fade(intensity, index as int));
            crate::ui::glass::render_interface_node(target, px, py, fade);
            let ghost m1 = target.bytes();
            let halo = fade / 2;
            target.write_pixel(px + 1, py, 0x40, 0x80, 0xFF, halo);
            let ghost m2 = target.bytes();
            target.write_pixel(px, py + 1, 0x30, 0x60, 0xC0, halo);
            proof {
                let s = particle_strokes(origin_x as int, origin_y as int, vector_x as int, vector_y as int, intensity, index as int);
                lemma_painted_compose(before, mid, m1, prev, seq![s[0]]);
                lemma_painted_compose(before, m1, m2, prev + seq![s[0]], seq![s[1]]);
                lemma_painted_compose(before, m2, target.bytes(), prev + seq![s[0]] + seq![s[1]], seq![s[2]]);
                assert(prev + seq![s[0]] + seq![s[1]] + seq![s[2]] =~= prev + s);
            }
        } else {
            proof {
                assert(prev + Seq::<Stroke>::empty() =~= prev);
            }
        }
        index = index + 1;
    }
}

proof fn lemma_trunc_div_close(a: int)
    ensures
        a - 24 < 24 * trunc_div(a, 24) < a + 24,
{
}

proof fn lemma_jitter_small(k: int, intensity: u8)
    requires
        k >= 0,
    ensures
        -cloud_spread(intensity) <= k % cloud_spread(intensity) - cloud_spread(intensity) / 2 <= cloud_spread(intensity),
{
    vstd::arithmetic::div_mod::lemma_mod_pos_bound(k, cloud_spread(intensity));
}

/// Law: particles drift along the steering vector. Particle `index` sits `vector * index / 24`
/// from the origin on each axis, up to a jitter of at most an eighth of the intensity plus
/// five pixels: `|24 * offset - vector * index| < 24 * (intensity / 8 + 5)`.
pub proof fn law_particles_follow_vector(vector_x: int, vector_y: int, index: int, intensity: u8)
    requires
        0 <= index < 24,
    ensures
        vector_x * index - 24 * (intensity / 8 + 5) < 24 * particle_dx(vector_x, index, intensity) < vector_x * index + 24 * (
        intensity / 8 + 5),
        vector_y * index - 24 * (intensity / 8 + 5) < 24 * particle_dy(vector_y, index, intensity) < vector_y * index + 24 * (
        intensity / 8 + 5),
{
    lemma_trunc_div_close(vector_x * index);
    lemma_trunc_div_close(vector_y * index);
    lemma_jitter_small(index * 17, intensity);
    lemma_jitter_small((index * 17) / 3, intensity);
}

} // verus!
