//! The fixed numbers of the simulation, as bit patterns.

use crate::single::{lemma_opposite, Single};
use vstd::arithmetic::power2::{lemma2_to64, lemma_pow2_adds, pow2};
use vstd::prelude::*;

verus! {

/// 0.0
pub const ZERO_BITS: u32 = 0x0000_0000;

/// 1.0: the least acceleration a new car may get.
pub const ACCELERATION_FLOOR_BITS: u32 = 0x3f80_0000;

/// 5.0: the bound under which a new car's acceleration stays.
pub const ACCELERATION_CEILING_BITS: u32 = 0x40a0_0000;

/// 5.0: degrees by which a new car's wheel may turn in one step.
pub const TURNING_RATE_BITS: u32 = 0x40a0_0000;

/// 20.0: how far behind its leader a follower aims.
pub const FOLLOW_GAP_BITS: u32 = 0x41a0_0000;

/// 30.0: degrees of wheel deflection a car can have to either side.
pub const WHEEL_LIMIT_BITS: u32 = 0x41f0_0000;

/// 65.0: approach speed of a car that wanders.
pub const WANDER_SPEED_BITS: u32 = 0x4282_0000;

/// 80.0: the greatest speed, and the approach speed of a follower.
pub const SPEED_LIMIT_BITS: u32 = 0x42a0_0000;

/// 1000.0: side of the square in which cars start and wander.
pub const FIELD_SIZE_BITS: u32 = 0x447a_0000;

/// Steps of the whole population in one tick.
pub const STEPS_PER_TICK: u32 = 50;

pub open spec fn zero() -> Single {
    Single { bits: ZERO_BITS }
}

pub open spec fn acceleration_floor() -> Single {
    Single { bits: ACCELERATION_FLOOR_BITS }
}

pub open spec fn acceleration_ceiling() -> Single {
    Single { bits: ACCELERATION_CEILING_BITS }
}

pub open spec fn turning_rate() -> Single {
    Single { bits: TURNING_RATE_BITS }
}

pub open spec fn follow_gap() -> Single {
    Single { bits: FOLLOW_GAP_BITS }
}

pub open spec fn wheel_limit() -> Single {
    Single { bits: WHEEL_LIMIT_BITS }
}

pub open spec fn wander_speed() -> Single {
    Single { bits: WANDER_SPEED_BITS }
}

pub open spec fn speed_limit() -> Single {
    Single { bits: SPEED_LIMIT_BITS }
}

pub open spec fn field_size() -> Single {
    Single { bits: FIELD_SIZE_BITS }
}

/// Where zero, the wheel limit to both sides and the speed limit stand in the
/// numeric order. None of them is a NaN.
pub proof fn lemma_limit_ranks()
    ensures
        !zero().nan() && zero().rank() == 0,
        !wheel_limit().nan() && wheel_limit().rank() == WHEEL_LIMIT_BITS,
        !wheel_limit().opposite().nan() && wheel_limit().opposite().rank() == -(WHEEL_LIMIT_BITS
            as int),
        !speed_limit().nan() && speed_limit().rank() == SPEED_LIMIT_BITS,
{
    assert(0x0000_0000u32 & 0x7fff_ffff == 0) by (bit_vector);
    assert(0x0000_0000u32 & 0x8000_0000 == 0) by (bit_vector);
    assert((0x41f0_0000u32 ^ 0x8000_0000) & 0x7fff_ffff == 0x41f0_0000) by (bit_vector);
    assert((0x41f0_0000u32 ^ 0x8000_0000) & 0x8000_0000 != 0) by (bit_vector);
    assert(0x41f0_0000u32 & 0x7fff_ffff == 0x41f0_0000) by (bit_vector);
    assert(0x41f0_0000u32 & 0x8000_0000 == 0) by (bit_vector);
    assert(0x42a0_0000u32 & 0x7fff_ffff == 0x42a0_0000) by (bit_vector);
    assert(0x42a0_0000u32 & 0x8000_0000 == 0) by (bit_vector);
}

proof fn lemma_encodes(x: Single, n: int, k: nat)
    requires
        !x.negative(),
        x.finite(),
        1 <= x.exponent(),
        0x80_0000 + x.fraction() == n * pow2(k),
        k + x.exponent() - 1 == 149,
    ensures
        x.is_whole(n),
{
    let rest = (x.exponent() - 1) as nat;
    lemma_pow2_adds(k, rest);
    let a = pow2(k) as int;
    let b = pow2(rest) as int;
    assert((n * a) * b == n * (a * b)) by (nonlinear_arith);
}

/// The numbers that the limits are: zero, 1 and 5 for the acceleration, 5
/// for the turning rate, 20 for the follow gap, 30 for the wheel to either
/// side, 65 and 80 for the speeds, 1000 for the field.
pub proof fn lemma_limits_are_whole()
    ensures
        zero().is_whole(0),
        acceleration_floor().is_whole(1),
        acceleration_ceiling().is_whole(5),
        turning_rate().is_whole(5),
        follow_gap().is_whole(20),
        wheel_limit().is_whole(30),
        wheel_limit().opposite().is_whole(-30),
        wander_speed().is_whole(65),
        speed_limit().is_whole(80),
        field_size().is_whole(1000),
{
    lemma2_to64();
    assert(0x0000_0000u32 & 0x7fff_ffff == 0 && 0x0000_0000u32 & 0x8000_0000 == 0 && (0x0000_0000u32
        >> 23) & 0xff == 0 && 0x0000_0000u32 & 0x7f_ffff == 0) by (bit_vector);
    assert(zero().scaled() == 0 * pow2(149));

    assert(0x3f80_0000u32 & 0x7fff_ffff == 0x3f80_0000 && 0x3f80_0000u32 & 0x8000_0000 == 0 && (
    0x3f80_0000u32 >> 23) & 0xff == 127 && 0x3f80_0000u32 & 0x7f_ffff == 0) by (bit_vector);
    lemma_encodes(acceleration_floor(), 1, 23);

    assert(0x40a0_0000u32 & 0x7fff_ffff == 0x40a0_0000 && 0x40a0_0000u32 & 0x8000_0000 == 0 && (
    0x40a0_0000u32 >> 23) & 0xff == 129 && 0x40a0_0000u32 & 0x7f_ffff == 0x20_0000)
        by (bit_vector);
    lemma_encodes(acceleration_ceiling(), 5, 21);
    lemma_encodes(turning_rate(), 5, 21);

    assert(0x41a0_0000u32 & 0x7fff_ffff == 0x41a0_0000 && 0x41a0_0000u32 & 0x8000_0000 == 0 && (
    0x41a0_0000u32 >> 23) & 0xff == 131 && 0x41a0_0000u32 & 0x7f_ffff == 0x20_0000)
        by (bit_vector);
    lemma_encodes(follow_gap(), 20, 19);

    assert(0x41f0_0000u32 & 0x7fff_ffff == 0x41f0_0000 && 0x41f0_0000u32 & 0x8000_0000 == 0 && (
    0x41f0_0000u32 >> 23) & 0xff == 131 && 0x41f0_0000u32 & 0x7f_ffff == 0x70_0000)
        by (bit_vector);
    lemma_encodes(wheel_limit(), 30, 19);
    lemma_opposite(wheel_limit());
    assert(-(30 * pow2(149)) == (-30) * pow2(149)) by (nonlinear_arith);

    assert(0x4282_0000u32 & 0x7fff_ffff == 0x4282_0000 && 0x4282_0000u32 & 0x8000_0000 == 0 && (
    0x4282_0000u32 >> 23) & 0xff == 133 && 0x4282_0000u32 & 0x7f_ffff == 0x02_0000)
        by (bit_vector);
    lemma_encodes(wander_speed(), 65, 17);

    assert(0x42a0_0000u32 & 0x7fff_ffff == 0x42a0_0000 && 0x42a0_0000u32 & 0x8000_0000 == 0 && (
    0x42a0_0000u32 >> 23) & 0xff == 133 && 0x42a0_0000u32 & 0x7f_ffff == 0x20_0000)
        by (bit_vector);
    lemma_encodes(speed_limit(), 80, 17);

    assert(0x447a_0000u32 & 0x7fff_ffff == 0x447a_0000 && 0x447a_0000u32 & 0x8000_0000 == 0 && (
    0x447a_0000u32 >> 23) & 0xff == 136 && 0x447a_0000u32 & 0x7f_ffff == 0x7a_0000)
        by (bit_vector);
    lemma_encodes(field_size(), 1000, 14);
}

} // verus!
