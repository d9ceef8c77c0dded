//! The force field: a pure evaluation of the velocity delta each
//! particle receives from a field source at the pointer, in one of
//! three variants, and the pass that writes those deltas into the
//! store.  The wave variant's cosine is the library's own quarter-wave
//! polynomial approximation in fixed point.

use vstd::prelude::*;
use vstd::arithmetic::div_mod::lemma_multiply_divide_lt;
use crate::fixed::{clip, div_trunc, isqrt, lemma_tdiv_mag, lemma_tdiv_neg, sat_fx, sqrt_floor,
    tdiv, FX_LIMIT, SCALE};
use crate::particles::{all_wf, particle_wf, Particle};

verus! {

/// Pi in fixed-point units, rounded to the nearest unit.
pub const PI_FX: i64 = 205887;

/// Two pi in fixed-point units, rounded to the nearest unit.
pub const TWO_PI_FX: i64 = 411775;

/// Half pi in fixed-point units, rounded to the nearest unit.
pub const HALF_PI_FX: i64 = 102944;

/// One fifth in fixed-point units: the wave variant's constant bias.
pub const FIFTH_FX: i64 = 13107;

/// The force-law variants the field evaluator knows, a closed set
/// rather than an open integer tag.
#[derive(Clone, Copy, PartialEq, Eq, Structural, Debug)]
pub enum FieldKind {
    /// The default law: force falls off with the squared distance.
    InverseSquare,
    /// Force falls off with the distance, offset to cap the peak near
    /// the source.
    InverseLinear,
    /// Alternating attraction and repulsion bands over the distance.
    Wave,
}

/// The quarter-wave cosine polynomial on `[0, HALF_PI_FX]`: the Taylor
/// sum `1 - t^2/2 + t^4/24 - t^6/720`, each term truncated to fixed
/// point.
pub open spec fn cos_poly(t: int) -> int {
    let t2 = (t * t) / (SCALE as int);
    let t4 = (t2 * t2) / (SCALE as int);
    let t6 = (t4 * t2) / (SCALE as int);
    SCALE - t2 / 2 + t4 / 24 - t6 / 720
}

/// The library's cosine of a nonnegative fixed-point angle: the angle
/// folded into a quarter wave, the polynomial applied, the result
/// clamped into `[-SCALE, SCALE]`.
pub open spec fn cos_fixed(x: int) -> int {
    let r0 = x % (TWO_PI_FX as int);
    let r1 = if r0 > PI_FX {
        TWO_PI_FX - r0
    } else {
        r0
    };
    let v = if r1 > HALF_PI_FX {
        -cos_poly(PI_FX - r1)
    } else {
        cos_poly(r1)
    };
    clip(v, -SCALE as int, SCALE as int)
}

/// The quarter-wave polynomial, executable form.
fn cos_poly_val(t: u64) -> (c: i64)
    requires
        t <= HALF_PI_FX,
    ensures
        c == cos_poly(t as int),
        -131072 <= c <= 131072,
{
    proof {
        assert(t * t < 17179869184) by (nonlinear_arith)
            requires
                t <= 102944;
        lemma_multiply_divide_lt(t as int * t as int, 65536, 262144);
    }
    let t2: u64 = (t * t) / 65536;
    proof {
        assert(t2 * t2 < 68719476736) by (nonlinear_arith)
            requires
                t2 < 262144;
        lemma_multiply_divide_lt(t2 as int * t2 as int, 65536, 1048576);
    }
    let t4: u64 = (t2 * t2) / 65536;
    proof {
        assert(t4 * t2 < 274877906944) by (nonlinear_arith)
            requires
                t4 < 1048576,
                t2 < 262144;
        lemma_multiply_divide_lt(t4 as int * t2 as int, 65536, 4194304);
    }
    let t6: u64 = (t4 * t2) / 65536;
    let a: i64 = (t2 / 2) as i64;
    let b: i64 = (t4 / 24) as i64;
    let c: i64 = (t6 / 720) as i64;
    65536 + b - a - c
}

/// The library's cosine, executable form: always within
/// `[-SCALE, SCALE]`.
pub fn cos_val(x: u64) -> (c: i64)
    ensures
        c == cos_fixed(x as int),
        -SCALE <= c <= SCALE,
{
    proof {
        vstd::arithmetic::div_mod::lemma_mod_division_less_than_divisor(x as int, 411775);
    }
    let r0: u64 = x % 411775;
    let r1: u64 = if r0 > 205887 {
        411775 - r0
    } else {
        r0
    };
    let v: i64 = if r1 > 102944 {
        -cos_poly_val(205887 - r1)
    } else {
        cos_poly_val(r1)
    };
    if v < -SCALE {
        -SCALE
    } else if v > SCALE {
        SCALE
    } else {
        v
    }
}

/// The scalar force a field of the given variant and strength exerts at
/// fixed-point distance `d > 0`.
pub open spec fn force_of(kind: FieldKind, strength: int, d: int) -> int {
    match kind {
        FieldKind::InverseSquare => tdiv(strength * SCALE * SCALE, d * d),
        FieldKind::InverseLinear => tdiv(strength * SCALE, d + 20 * SCALE),
        FieldKind::Wave => {
            let dd = tdiv(d * d, SCALE as int);
            let band = tdiv(cos_fixed(d) * 300 * SCALE, dd + 100 * SCALE);
            tdiv(strength * (band + FIFTH_FX), 10 * SCALE)
        },
    }
}

/// The velocity delta a particle at offset `(dx, dy)` from the source
/// receives: the force along the unit vector toward the source.  A
/// particle exactly on the source receives no delta — the one
/// degenerate case, chosen over propagating an undefined direction.
pub open spec fn vel_delta(kind: FieldKind, strength: int, dx: int, dy: int) -> (int, int) {
    let d = sqrt_floor((dx * dx + dy * dy) as nat) as int;
    if d == 0 {
        (0, 0)
    } else {
        let f = force_of(kind, strength, d);
        (-tdiv(f * dx, d), -tdiv(f * dy, d))
    }
}

/// `p` with the field's velocity delta applied, saturated to the
/// fixed-point range.
pub open spec fn forced(p: Particle, px: int, py: int, kind: FieldKind, strength: int) -> Particle {
    let del = vel_delta(kind, strength, p.pos_x - px, p.pos_y - py);
    Particle {
        vel_x: clip(p.vel_x + del.0, -FX_LIMIT as int, FX_LIMIT as int) as i64,
        vel_y: clip(p.vel_y + del.1, -FX_LIMIT as int, FX_LIMIT as int) as i64,
        ..p
    }
}

/// Field symmetry: two particles at opposite offsets from the source
/// receive velocity deltas equal in magnitude and opposite in
/// direction — exactly, for every field variant.
pub proof fn lemma_field_symmetry(kind: FieldKind, strength: int, dx: int, dy: int)
    ensures
        vel_delta(kind, strength, -dx, -dy).0 == -vel_delta(kind, strength, dx, dy).0,
        vel_delta(kind, strength, -dx, -dy).1 == -vel_delta(kind, strength, dx, dy).1,
{
    assert((-dx) * (-dx) == dx * dx && (-dy) * (-dy) == dy * dy) by (nonlinear_arith);
    let d = sqrt_floor((dx * dx + dy * dy) as nat) as int;
    if d != 0 {
        let f = force_of(kind, strength, d);
        assert(f * (-dx) == -(f * dx) && f * (-dy) == -(f * dy)) by (nonlinear_arith);
        lemma_tdiv_neg(f * dx, d);
        lemma_tdiv_neg(f * dy, d);
    }
}

/// The velocity delta of one particle offset, executable form, exact
/// and unclipped.
fn delta_val(dx: i64, dy: i64, kind: FieldKind, strength: i64) -> (del: (i128, i128))
    requires
        -2199023255552 <= dx <= 2199023255552,
        -2199023255552 <= dy <= 2199023255552,
        -FX_LIMIT <= strength <= FX_LIMIT,
    ensures
        del.0 == vel_delta(kind, strength as int, dx as int, dy as int).0,
        del.1 == vel_delta(kind, strength as int, dx as int, dy as int).1,
        -0x8000000000000000000000000000000 <= del.0 <= 0x8000000000000000000000000000000,
        -0x8000000000000000000000000000000 <= del.1 <= 0x8000000000000000000000000000000,
{
    let dxw: i128 = dx as i128;
    let dyw: i128 = dy as i128;
    proof {
        assert(0 <= dxw * dxw <= 0x400000000000000000000 && 0 <= dyw * dyw
            <= 0x400000000000000000000) by (nonlinear_arith)
            requires
                -2199023255552 <= dxw <= 2199023255552,
                -2199023255552 <= dyw <= 2199023255552;
    }
    let nsq: i128 = dxw * dxw + dyw * dyw;
    let d: u64 = isqrt(nsq as u128);
    if d == 0 {
        (0, 0)
    } else {
        proof {
            assert(d <= 4398046511104) by (nonlinear_arith)
                requires
                    d * d <= 0x800000000000000000000,
                    d >= 0;
        }
        let f: i128 = force_val(kind, strength, d);
        proof {
            assert(-0x8000000000000000000000000000000 <= f * dxw
                <= 0x8000000000000000000000000000000 && -0x8000000000000000000000000000000 <= f
                * dyw <= 0x8000000000000000000000000000000) by (nonlinear_arith)
                requires
                    -0x200000000000000000000 <= f <= 0x200000000000000000000,
                    -2199023255552 <= dxw <= 2199023255552,
                    -2199023255552 <= dyw <= 2199023255552;
        }
        let delx: i128 = -div_trunc(f * dxw, d as i128);
        let dely: i128 = -div_trunc(f * dyw, d as i128);
        proof {
            lemma_tdiv_mag((f as int) * (dxw as int), d as int);
            lemma_tdiv_mag((f as int) * (dyw as int), d as int);
        }
        (delx, dely)
    }
}

/// The field evaluator's pure interface: the velocity delta a particle
/// at the given position receives from a field source at the pointer,
/// saturated to the fixed-point range.  No state is touched; writing
/// the delta into a velocity is the caller's business.
pub fn evaluate(
    pos_x: i64,
    pos_y: i64,
    ptr_x: i64,
    ptr_y: i64,
    kind: FieldKind,
    strength: i64,
) -> (dv: (i64, i64))
    requires
        -FX_LIMIT <= pos_x <= FX_LIMIT,
        -FX_LIMIT <= pos_y <= FX_LIMIT,
        -FX_LIMIT <= ptr_x <= FX_LIMIT,
        -FX_LIMIT <= ptr_y <= FX_LIMIT,
        -FX_LIMIT <= strength <= FX_LIMIT,
    ensures
        dv.0 == clip(
            vel_delta(kind, strength as int, pos_x - ptr_x, pos_y - ptr_y).0,
            -FX_LIMIT as int,
            FX_LIMIT as int,
        ),
        dv.1 == clip(
            vel_delta(kind, strength as int, pos_x - ptr_x, pos_y - ptr_y).1,
            -FX_LIMIT as int,
            FX_LIMIT as int,
        ),
{
    let del = delta_val(pos_x - ptr_x, pos_y - ptr_y, kind, strength);
    (sat_fx(del.0), sat_fx(del.1))
}

/// One frame of the force field: when the field is active, every
/// particle's velocity takes the delta of the field at its position;
/// otherwise the store is untouched.  The caller decides activation
/// (primary button held, or the pointer locked).
pub fn apply_force_field(
    particles: &mut Vec<Particle>,
    px: i64,
    py: i64,
    active: bool,
    kind: FieldKind,
    strength: i64,
)
    requires
        all_wf(old(particles)@),
        -FX_LIMIT <= px <= FX_LIMIT,
        -FX_LIMIT <= py <= FX_LIMIT,
        -FX_LIMIT <= strength <= FX_LIMIT,
    ensures
        final(particles)@.len() == old(particles)@.len(),
        !active ==> final(particles)@ == old(particles)@,
        active ==> forall|k: int|
            0 <= k < old(particles)@.len() ==> final(particles)@[k] == forced(
                old(particles)@[k],
                px as int,
                py as int,
                kind,
                strength as int,
            ),
        all_wf(final(particles)@),
{
    if !active {
        return ;
    }
    let n = particles.len();
    let mut k: usize = 0;
    while k < n
        invariant
            particles@.len() == n == old(particles)@.len(),
            all_wf(old(particles)@),
            -FX_LIMIT <= px <= FX_LIMIT,
            -FX_LIMIT <= py <= FX_LIMIT,
            -FX_LIMIT <= strength <= FX_LIMIT,
            forall|j: int|
                0 <= j < k ==> particles@[j] == forced(
                    old(particles)@[j],
                    px as int,
                    py as int,
                    kind,
                    strength as int,
                ),
            forall|j: int| 0 <= j < k ==> particle_wf(#[trigger] particles@[j]),
            forall|j: int| k <= j < n ==> particles@[j] == old(particles)@[j],
            k <= n,
        decreases n - k,
    {
        proof {
            assert(particle_wf(old(particles)@[k as int]));
        }
        let mut p = particles[k];
        let del = delta_val(p.pos_x - px, p.pos_y - py, kind, strength);
        p.vel_x = sat_fx((p.vel_x as i128) + del.0);
        p.vel_y = sat_fx((p.vel_y as i128) + del.1);
        particles[k] = p;
        k = k + 1;
    }
}

/// The scalar force, executable form.  The result is bounded by the
/// largest dividend any variant can produce.
fn force_val(kind: FieldKind, strength: i64, d: u64) -> (f: i128)
    requires
        -FX_LIMIT <= strength <= FX_LIMIT,
        0 < d <= 4398046511104,
    ensures
        f == force_of(kind, strength as int, d as int),
        -0x200000000000000000000 <= f <= 0x200000000000000000000,
{
    let dw: i128 = d as i128;
    let sw: i128 = strength as i128;
    match kind {
        FieldKind::InverseSquare => {
            proof {
                assert(0 < dw * dw <= 0x800000000000000000000000) by (nonlinear_arith)
                    requires
                        0 < dw <= 4398046511104;
            }
            let f = div_trunc(sw * 65536 * 65536, dw * dw);
            proof {
                lemma_tdiv_mag((sw as int) * 65536 * 65536, (dw as int) * (dw as int));
            }
            f
        },
        FieldKind::InverseLinear => {
            let f = div_trunc(sw * 65536, dw + 20 * 65536);
            proof {
                lemma_tdiv_mag((sw as int) * 65536, (dw as int) + 20 * 65536);
            }
            f
        },
        FieldKind::Wave => {
            let c: i64 = cos_val(d);
            proof {
                assert(0 <= dw * dw <= 0x800000000000000000000000) by (nonlinear_arith)
                    requires
                        0 < dw <= 4398046511104;
            }
            let dd: i128 = div_trunc(dw * dw, 65536);
            proof {
                lemma_tdiv_mag((dw as int) * (dw as int), 65536);
            }
            let band: i128 = div_trunc((c as i128) * 300 * 65536, dd + 100 * 65536);
            proof {
                lemma_tdiv_mag((c as int) * 300 * 65536, (dd as int) + 100 * 65536);
                assert(-0x200000000000000000000 <= sw * (band + FIFTH_FX as i128)
                    <= 0x200000000000000000000) by (nonlinear_arith)
                    requires
                        -FX_LIMIT <= sw <= FX_LIMIT,
                        -1288490188800 <= band <= 1288490188800,
                        FIFTH_FX == 13107,
                        FX_LIMIT == 1099511627776;
            }
            let f = div_trunc(sw * (band + (FIFTH_FX as i128)), 10 * 65536);
            proof {
                lemma_tdiv_mag((sw as int) * ((band as int) + FIFTH_FX), (10 * 65536) as int);
            }
            f
        },
    }
}

} // verus!
