//! A car: its state, and the limits that every change of it keeps.

use crate::color::Color;
use crate::driver::DriveHomeDriver;
use crate::limits::{
    acceleration_ceiling, acceleration_floor, field_size, lemma_limit_ranks,
    lemma_limits_are_whole, speed_limit, turning_rate, wheel_limit, zero,
    ACCELERATION_CEILING_BITS, ACCELERATION_FLOOR_BITS, FIELD_SIZE_BITS, SPEED_LIMIT_BITS,
    TURNING_RATE_BITS, WHEEL_LIMIT_BITS, ZERO_BITS,
};
use crate::point::Point;
use crate::single::{lemma_opposite, lemma_rank_orders_numbers, Single};
use crate::waypoint::Waypoint;
use vstd::arithmetic::power2::pow2;
use vstd::prelude::*;

verus! {

/// Whether a wheel angle is within the deflection a car can have: neither
/// below minus the wheel limit nor above the wheel limit.
pub open spec fn wheel_in_range(angle: Single) -> bool {
    !angle.below(wheel_limit().opposite()) && !wheel_limit().below(angle)
}

/// Whether a speed is one a car can have: neither below zero nor above the
/// speed limit.
pub open spec fn speed_in_range(speed: Single) -> bool {
    !speed.below(zero()) && !speed_limit().below(speed)
}

/// By how much the wheel turns in one step to close the heading error
/// `delta`, where it may turn by `rate` at most: towards the error, and no
/// further than the error itself.
pub open spec fn wheel_turn(rate: Single, delta: Single) -> Single {
    if zero().below(delta) {
        rate.lesser(delta)
    } else {
        rate.opposite().greater(delta)
    }
}

/// What one step does to a car: where it is and where it goes afterwards, and
/// the wheel angle, heading and speed that the step's arithmetic arrived at.
#[derive(Clone, Copy, Debug, PartialEq, Eq, Structural)]
pub struct Motion {
    pub location: Point,
    pub destination: Waypoint,
    pub wheel_angle: Single,
    pub heading: Single,
    pub speed: Single,
}

/// `angle` as a wheel can have it: held between minus the wheel limit and the
/// wheel limit.
pub open spec fn held_wheel(angle: Single) -> Single {
    angle.held_between(wheel_limit().opposite(), wheel_limit())
}

/// `speed` as a car can have it: held between zero and the speed limit.
pub open spec fn held_speed(speed: Single) -> Single {
    speed.held_between(zero(), speed_limit())
}

/// Holds a wheel angle in range.
pub fn hold_wheel(angle: Single) -> (r: Single)
    ensures
        r == held_wheel(angle),
        wheel_in_range(r),
{
    proof {
        lemma_limit_ranks();
    }
    angle.clamp(Single::from_bits(WHEEL_LIMIT_BITS).neg(), Single::from_bits(WHEEL_LIMIT_BITS))
}

/// Holds a speed in range.
pub fn hold_speed(speed: Single) -> (r: Single)
    ensures
        r == held_speed(speed),
        speed_in_range(r),
{
    proof {
        lemma_limit_ranks();
    }
    speed.clamp(Single::from_bits(ZERO_BITS), Single::from_bits(SPEED_LIMIT_BITS))
}

/// A car as the contracts see it.
pub struct CarView {
    pub location: Point,
    pub destination: Waypoint,
    pub wheel_angle: Single,
    pub heading: Single,
    pub speed: Single,
    pub name: Seq<char>,
    pub turning_radius: Single,
    pub acceleration: Single,
    pub color: Color,
    pub driver: Option<DriveHomeDriver>,
}

impl CarView {
    /// Wheel angle and speed are both in range.
    pub open spec fn within_limits(self) -> bool {
        wheel_in_range(self.wheel_angle) && speed_in_range(self.speed)
    }

    /// Whether the car is as a new car is: at rest, wheel straight, heading
    /// zero, turning at the turning rate, out for the speed limit, and with
    /// its place, its first destination and its acceleration as `draw` may
    /// give them for the bounds that a new car hands to it.
    pub open spec fn at_start<D: Fn(Single, Single) -> Single>(self, draw: &D) -> bool {
        &&& self.wheel_angle == zero()
        &&& self.heading == zero()
        &&& self.speed == zero()
        &&& self.turning_radius == turning_rate()
        &&& self.destination.speed == speed_limit()
        &&& call_ensures(draw, (zero(), field_size()), self.location.x)
        &&& call_ensures(draw, (zero(), field_size()), self.location.y)
        &&& call_ensures(draw, (zero(), field_size()), self.destination.location.x)
        &&& call_ensures(draw, (zero(), field_size()), self.destination.location.y)
        &&& call_ensures(draw, (acceleration_floor(), acceleration_ceiling()), self.acceleration)
    }

    /// The same car without a driver.
    pub open spec fn shell(self) -> CarView {
        CarView { driver: None, ..self }
    }

    /// The car after a step that arrived at `motion`: wheel angle and speed
    /// are held in range, the rest is taken as it comes, and what the car is
    /// stays.
    pub open spec fn moved(self, motion: Motion) -> CarView {
        CarView {
            location: motion.location,
            destination: motion.destination,
            wheel_angle: held_wheel(motion.wheel_angle),
            heading: motion.heading,
            speed: held_speed(motion.speed),
            ..self
        }
    }
}

/// A car. With a driver it is a car of the simulation; without one it is a
/// shell, a picture of a car for others to look at.
#[derive(Debug)]
pub struct Car {
    location: Point,
    destination: Waypoint,
    wheel_angle: Single,
    heading: Single,
    speed: Single,
    name: String,
    turning_radius: Single,
    acceleration: Single,
    color: Color,
    driver: Option<DriveHomeDriver>,
}

impl View for Car {
    type V = CarView;

    closed spec fn view(&self) -> CarView {
        CarView {
            location: self.location,
            destination: self.destination,
            wheel_angle: self.wheel_angle,
            heading: self.heading,
            speed: self.speed,
            name: self.name@,
            turning_radius: self.turning_radius,
            acceleration: self.acceleration,
            color: self.color,
            driver: self.driver,
        }
    }
}

impl Car {
    #[verifier::type_invariant]
    spec fn limits_kept(self) -> bool {
        wheel_in_range(self.wheel_angle) && speed_in_range(self.speed)
    }

    /// A car at rest with its wheel straight and heading zero. Where it
    /// stands and where it first goes are drawn with `draw` between zero and
    /// the field size, its acceleration between the acceleration floor and
    /// ceiling.
    pub fn new<D>(color: Color, name: String, driver: DriveHomeDriver, draw: &D) -> (car: Car) where
        D: Fn(Single, Single) -> Single,

        requires
            call_requires(draw, (zero(), field_size())),
            call_requires(draw, (acceleration_floor(), acceleration_ceiling())),
        ensures
            car@.color == color,
            car@.name == name@,
            car@.driver == Some(driver),
            car@.at_start(draw),
            car@.within_limits(),
    {
        let zero: Single = Single::from_bits(ZERO_BITS);
        let side: Single = Single::from_bits(FIELD_SIZE_BITS);
        let x: Single = draw(zero, side);
        let y: Single = draw(zero, side);
        let to_x: Single = draw(zero, side);
        let to_y: Single = draw(zero, side);
        let acceleration: Single = draw(
            Single::from_bits(ACCELERATION_FLOOR_BITS),
            Single::from_bits(ACCELERATION_CEILING_BITS),
        );
        proof {
            lemma_rest_in_range();
        }
        Car {
            location: Point::new(x, y),
            destination: Waypoint::new(Point::new(to_x, to_y), Single::from_bits(SPEED_LIMIT_BITS)),
            wheel_angle: zero,
            heading: zero,
            speed: zero,
            name,
            turning_radius: Single::from_bits(TURNING_RATE_BITS),
            acceleration,
            color,
            driver: Some(driver),
        }
    }

    /// A copy without the driver.
    pub fn shell_copy(&self) -> (shell: Car)
        ensures
            shell@ == self@.shell(),
    {
        proof {
            use_type_invariant(self);
        }
        Car {
            location: self.location,
            destination: self.destination,
            wheel_angle: self.wheel_angle,
            heading: self.heading,
            speed: self.speed,
            name: self.name.clone(),
            turning_radius: self.turning_radius,
            acceleration: self.acceleration,
            color: self.color,
            driver: None,
        }
    }

    /// A copy with the driver.
    pub fn duplicate(&self) -> (copy: Car)
        ensures
            copy@ == self@,
    {
        proof {
            use_type_invariant(self);
        }
        Car {
            location: self.location,
            destination: self.destination,
            wheel_angle: self.wheel_angle,
            heading: self.heading,
            speed: self.speed,
            name: self.name.clone(),
            turning_radius: self.turning_radius,
            acceleration: self.acceleration,
            color: self.color,
            driver: self.driver,
        }
    }

    /// Whether the car has a driver, which is to say that it is no shell.
    pub fn is_live(&self) -> (r: bool)
        ensures
            r == self@.driver.is_some(),
    {
        self.driver.is_some()
    }

    /// By how much the wheel turns in one step to close `heading_delta`.
    pub fn wheel_step(&self, heading_delta: Single) -> (r: Single)
        ensures
            r == wheel_turn(self@.turning_radius, heading_delta),
    {
        if heading_delta.gt(Single::from_bits(ZERO_BITS)) {
            self.turning_radius.min(heading_delta)
        } else {
            self.turning_radius.neg().max(heading_delta)
        }
    }

    /// Takes the outcome of a step. Only a car with a driver takes steps: a
    /// shell shows a car as it was and is never moved.
    pub fn apply(&mut self, motion: Motion)
        requires
            old(self)@.driver.is_some(),
        ensures
            final(self)@ == old(self)@.moved(motion),
            final(self)@.within_limits(),
    {
        proof {
            use_type_invariant(&*self);
        }
        let wheel_angle: Single = hold_wheel(motion.wheel_angle);
        let speed: Single = hold_speed(motion.speed);
        self.location = motion.location;
        self.destination = motion.destination;
        self.heading = motion.heading;
        self.wheel_angle = wheel_angle;
        self.speed = speed;
    }

    pub fn location(&self) -> (r: Point)
        ensures
            r == self@.location,
    {
        self.location
    }

    pub fn destination(&self) -> (r: Waypoint)
        ensures
            r == self@.destination,
    {
        self.destination
    }

    /// The wheel angle, which is in range whatever was done to the car.
    pub fn wheel_angle(&self) -> (r: Single)
        ensures
            r == self@.wheel_angle,
            wheel_in_range(r),
    {
        proof {
            use_type_invariant(self);
        }
        self.wheel_angle
    }

    pub fn heading(&self) -> (r: Single)
        ensures
            r == self@.heading,
    {
        self.heading
    }

    /// The speed, which is in range whatever was done to the car.
    pub fn speed(&self) -> (r: Single)
        ensures
            r == self@.speed,
            speed_in_range(r),
    {
        proof {
            use_type_invariant(self);
        }
        self.speed
    }

    pub fn name(&self) -> (r: &str)
        ensures
            r@ == self@.name,
    {
        self.name.as_str()
    }

    pub fn turning_radius(&self) -> (r: Single)
        ensures
            r == self@.turning_radius,
    {
        self.turning_radius
    }

    pub fn acceleration(&self) -> (r: Single)
        ensures
            r == self@.acceleration,
    {
        self.acceleration
    }

    pub fn color(&self) -> (r: Color)
        ensures
            r == self@.color,
    {
        self.color
    }

    pub fn driver(&self) -> (r: Option<DriveHomeDriver>)
        ensures
            r == self@.driver,
    {
        self.driver
    }
}

/// The wheel never turns by more than the turning rate in one step, to
/// either side, whatever the heading error is: the turn is neither below
/// minus the rate nor above the rate. An error above the rate turns the wheel
/// by the rate exactly, an error below minus the rate by minus the rate, and
/// an error between the two by the error itself.
pub proof fn lemma_turn_bounded(rate: Single, delta: Single)
    requires
        !rate.nan(),
        0 <= rate.rank(),
    ensures
        !wheel_turn(rate, delta).below(rate.opposite()),
        !rate.below(wheel_turn(rate, delta)),
        rate.below(delta) ==> wheel_turn(rate, delta) == rate,
        delta.below(rate.opposite()) ==> wheel_turn(rate, delta) == rate.opposite(),
        !delta.nan() && !rate.below(delta) && !delta.below(rate.opposite()) ==> wheel_turn(
            rate,
            delta,
        ) == delta,
{
    lemma_opposite(rate);
    lemma_limit_ranks();
}

/// Whatever a step arrives at, the car that takes it stays within its limits
/// and stays the car it was: name, colour, turning rate, acceleration and
/// driver are those it had.
pub proof fn lemma_moved_keeps(car: CarView, motion: Motion)
    ensures
        car.moved(motion).within_limits(),
        car.moved(motion).name == car.name,
        car.moved(motion).color == car.color,
        car.moved(motion).turning_radius == car.turning_radius,
        car.moved(motion).acceleration == car.acceleration,
        car.moved(motion).driver == car.driver,
{
    lemma_limit_ranks();
}

/// Being in range, said of the numbers themselves: a wheel angle in range
/// that is a number lies between -30 and 30, and a speed in range that is a
/// number lies between 0 and 80.
pub proof fn lemma_ranges_in_numbers(angle: Single, speed: Single)
    requires
        wheel_in_range(angle),
        speed_in_range(speed),
    ensures
        !angle.nan() ==> -30 * pow2(149) <= angle.scaled() <= 30 * pow2(149),
        !speed.nan() ==> 0 <= speed.scaled() <= 80 * pow2(149),
{
    lemma_limit_ranks();
    lemma_limits_are_whole();
    lemma_opposite(wheel_limit());
    if !angle.nan() {
        lemma_rank_orders_numbers(angle, wheel_limit());
        lemma_rank_orders_numbers(angle, wheel_limit().opposite());
    }
    if !speed.nan() {
        lemma_rank_orders_numbers(speed, zero());
        lemma_rank_orders_numbers(speed, speed_limit());
    }
}

/// A wheel held straight and a car at rest are in range.
pub proof fn lemma_rest_in_range()
    ensures
        wheel_in_range(zero()),
        speed_in_range(zero()),
{
    lemma_limit_ranks();
}

} // verus!
