use vstd::prelude::*;

verus! {

/// Raw stream timestamps are converted into this fixed playback unit.
pub const MICROS_PER_SECOND: i64 = 1_000_000;

/// A stream time base of `num / den` seconds per timestamp unit is usable
/// for conversion only as a nonnegative rational with positive denominator.
pub open spec fn time_base_valid(num: i32, den: i32) -> bool {
    num >= 0 && den > 0
}

/// Integer division of `a` by positive `d`, rounded to the nearest multiple
/// with ties away from zero.
pub open spec fn round_div(a: int, d: int) -> int
    recommends
        d > 0,
{
    if a >= 0 {
        (2 * a + d) / (2 * d)
    } else {
        -((2 * (-a) + d) / (2 * d))
    }
}

/// The presentation time of raw timestamp `pts`, in microseconds: its
/// distance from the stream's start timestamp, scaled by the time base and
/// rounded to the nearest microsecond, ties away from zero.
pub open spec fn pts_micros(pts: i64, start_pts: i64, num: i32, den: i32) -> int
    recommends
        time_base_valid(num, den),
{
    round_div((pts - start_pts) * num * (MICROS_PER_SECOND as int), den as int)
}

/// The exact microsecond value, wide enough that it is always representable.
fn micros_wide(pts: i64, start_pts: i64, num: i32, den: i32) -> (m: i128)
    requires
        time_base_valid(num, den),
    ensures
        m == pts_micros(pts, start_pts, num, den),
{
    let rel: i128 = pts as i128 - start_pts as i128;
    let neg: bool = rel < 0;
    let mag: u128 = if neg {
        (-rel) as u128
    } else {
        rel as u128
    };
    let num_u: u128 = num as u128;
    let den_u: u128 = den as u128;
    proof {
        assert(mag <= 0x1_0000_0000_0000_0000u128);
        assert(num_u < 0x8000_0000u128);
        assert(mag * num_u <= 0x1_0000_0000_0000_0000 * 0x8000_0000) by (nonlinear_arith)
            requires
                mag <= 0x1_0000_0000_0000_0000u128,
                num_u < 0x8000_0000u128,
        ;
    }
    let scaled: u128 = mag * num_u;
    proof {
        assert(scaled * 1_000_000 <= 0x8_0000_0000_0000_0000_0000_0000 * 1_000_000)
            by (nonlinear_arith)
            requires
                scaled <= 0x8_0000_0000_0000_0000_0000_0000u128,
        ;
    }
    let prod: u128 = scaled * 1_000_000;
    let q: u128 = (2 * prod + den_u) / (2 * den_u);
    proof {
        assert(q <= prod + den_u) by (nonlinear_arith)
            requires
                den_u > 0,
                q == (2 * prod + den_u) / (2 * den_u),
        ;
    }
    let m_abs: i128 = q as i128;
    proof {
        let a = (pts - start_pts) * num * (MICROS_PER_SECOND as int);
        if neg {
            assert(mag == -rel);
            assert(prod == (-rel) * num * 1_000_000);
            assert((-rel) * num * 1_000_000 == -(rel * num * 1_000_000)) by (nonlinear_arith);
            assert(prod == -a);
            if a == 0 {
                assert(q == (den_u as int) / (2 * (den_u as int)));
                assert((den_u as int) / (2 * (den_u as int)) == 0) by (nonlinear_arith)
                    requires
                        den_u as int > 0,
                ;
            }
        } else {
            assert(prod == a);
        }
    }
    if neg {
        -m_abs
    } else {
        m_abs
    }
}

/// Converts a raw timestamp to microseconds past the stream start, when the
/// time base is usable and the result fits the playback clock's 64-bit
/// range; otherwise reports the conversion unavailable.
pub fn pts_to_micros(pts: i64, start_pts: i64, num: i32, den: i32) -> (r: Option<i64>)
    ensures
        ({
            let m = pts_micros(pts, start_pts, num, den);
            if time_base_valid(num, den) && i64::MIN <= m <= i64::MAX {
                r matches Some(v) && v == m
            } else {
                r is None
            }
        }),
{
    if num < 0 || den <= 0 {
        return None;
    }
    let m = micros_wide(pts, start_pts, num, den);
    if i64::MIN as i128 <= m && m <= i64::MAX as i128 {
        Some(m as i64)
    } else {
        None
    }
}

/// Is the frame stamped `pts` due at or before `target` microseconds?
pub fn pts_due_by(pts: i64, start_pts: i64, num: i32, den: i32, target: i64) -> (r: bool)
    requires
        time_base_valid(num, den),
    ensures
        r == (pts_micros(pts, start_pts, num, den) <= target),
{
    micros_wide(pts, start_pts, num, den) <= target as i128
}

} // verus!
