//! The population of cars, and the order in which it moves.

use crate::car::{lemma_moved_keeps, Car, CarView, Motion};
use crate::chance::{random_byte, rearranged, shuffle};
use crate::color::Color;
use crate::driver::{views, DriveHomeDriver};
use crate::label::{numbered, numbered_name};
use crate::limits::{acceleration_ceiling, acceleration_floor, field_size, zero, STEPS_PER_TICK};
use crate::single::Single;
use vstd::prelude::*;

verus! {

/// Whether `scene` shows the cars of `cars`: one shell for each, in order.
pub open spec fn pictures(scene: Seq<Car>, cars: Seq<Car>) -> bool {
    &&& scene.len() == cars.len()
    &&& forall|i: int| 0 <= i < cars.len() ==> (#[trigger] scene[i])@ == cars[i]@.shell()
}

/// Whether `after` is what one step makes of `before`, where `scene` is what
/// the cars were shown and `motions` what `update` made of them: every car
/// was updated from its own state before the step and from `scene`, which
/// shows all cars as they were before the step.
pub open spec fn steps_by<U: Fn(&Car, &Vec<Car>) -> Motion>(
    update: &U,
    before: Seq<Car>,
    scene: Vec<Car>,
    motions: Seq<Motion>,
    after: Seq<Car>,
) -> bool {
    &&& pictures(scene@, before)
    &&& motions.len() == before.len()
    &&& after.len() == before.len()
    &&& forall|i: int|
        0 <= i < before.len() ==> call_ensures(update, (&before[i], &scene), #[trigger] motions[i])
            && after[i]@ == before[i]@.moved(motions[i])
}

/// Whether `after` can be what one step with `update` makes of `before`.
pub open spec fn stepped<U: Fn(&Car, &Vec<Car>) -> Motion>(
    update: &U,
    before: Seq<Car>,
    after: Seq<Car>,
) -> bool {
    exists|scene: Vec<Car>, motions: Seq<Motion>| steps_by(update, before, scene, motions, after)
}

/// Whether `after` can be what `n` steps with `update` make of `before`.
pub open spec fn advanced<U: Fn(&Car, &Vec<Car>) -> Motion>(
    update: &U,
    before: Seq<Car>,
    after: Seq<Car>,
    n: nat,
) -> bool
    decreases n,
{
    if n == 0 {
        after == before
    } else {
        exists|between: Seq<Car>|
            advanced(update, before, between, (n - 1) as nat) && stepped(update, between, after)
    }
}

/// A step changes no car's name, colour, turning rate, acceleration or
/// driver, adds and loses none, and leaves every car within its limits.
pub proof fn lemma_step_keeps<U: Fn(&Car, &Vec<Car>) -> Motion>(
    update: &U,
    before: Seq<Car>,
    after: Seq<Car>,
)
    requires
        stepped(update, before, after),
    ensures
        after.len() == before.len(),
        forall|i: int|
            0 <= i < after.len() ==> {
                &&& (#[trigger] after[i])@.within_limits()
                &&& after[i]@.name == before[i]@.name
                &&& after[i]@.color == before[i]@.color
                &&& after[i]@.turning_radius == before[i]@.turning_radius
                &&& after[i]@.acceleration == before[i]@.acceleration
                &&& after[i]@.driver == before[i]@.driver
            },
{
    let (scene, motions) = choose|scene: Vec<Car>, motions: Seq<Motion>|
        steps_by(update, before, scene, motions, after);
    assert forall|i: int| 0 <= i < after.len() implies {
        &&& (#[trigger] after[i])@.within_limits()
        &&& after[i]@.name == before[i]@.name
        &&& after[i]@.color == before[i]@.color
        &&& after[i]@.turning_radius == before[i]@.turning_radius
        &&& after[i]@.acceleration == before[i]@.acceleration
        &&& after[i]@.driver == before[i]@.driver
    } by {
        assert(after[i]@ == before[i]@.moved(motions[i]));
        lemma_moved_keeps(before[i]@, motions[i]);
    }
}

/// Any number of steps changes no car's name, colour, turning rate,
/// acceleration or driver, and adds and loses none. After one step or more,
/// every car is within its limits.
pub proof fn lemma_advance_keeps<U: Fn(&Car, &Vec<Car>) -> Motion>(
    update: &U,
    before: Seq<Car>,
    after: Seq<Car>,
    n: nat,
)
    requires
        advanced(update, before, after, n),
    ensures
        after.len() == before.len(),
        forall|i: int|
            0 <= i < after.len() ==> {
                &&& n > 0 ==> (#[trigger] after[i])@.within_limits()
                &&& after[i]@.name == before[i]@.name
                &&& after[i]@.color == before[i]@.color
                &&& after[i]@.turning_radius == before[i]@.turning_radius
                &&& after[i]@.acceleration == before[i]@.acceleration
                &&& after[i]@.driver == before[i]@.driver
            },
    decreases n,
{
    if n > 0 {
        let between = choose|between: Seq<Car>|
            advanced(update, before, between, (n - 1) as nat) && stepped(update, between, after);
        lemma_advance_keeps(update, before, between, (n - 1) as nat);
        lemma_step_keeps(update, between, after);
        assert forall|i: int| 0 <= i < after.len() implies {
            &&& (#[trigger] after[i])@.within_limits()
            &&& after[i]@.name == before[i]@.name
            &&& after[i]@.color == before[i]@.color
            &&& after[i]@.turning_radius == before[i]@.turning_radius
            &&& after[i]@.acceleration == before[i]@.acceleration
            &&& after[i]@.driver == before[i]@.driver
        } by {
            assert(between[i]@.name == before[i]@.name);
        }
    }
}

/// Whether `car` can be the car with number `k` that `with_cars` makes for
/// the word `word`: named by word and number, red and nothing else, with a
/// driver, and otherwise as a new car is.
pub open spec fn recruit<D: Fn(Single, Single) -> Single>(
    car: CarView,
    word: Seq<char>,
    k: int,
    draw: &D,
) -> bool {
    &&& car.name == numbered_name(word, k as nat)
    &&& car.color.green == 0
    &&& car.color.blue == 0
    &&& car.color.alpha == 255
    &&& car.driver == Some(DriveHomeDriver {  })
    &&& car.at_start(draw)
}

/// The cars of a simulation. Every one of them has a driver.
pub struct Scenario {
    cars: Vec<Car>,
}

impl View for Scenario {
    type V = Seq<CarView>;

    closed spec fn view(&self) -> Seq<CarView> {
        views(self.cars@)
    }
}

impl Scenario {
    #[verifier::type_invariant]
    spec fn all_live(self) -> bool {
        forall|i: int| 0 <= i < self.cars@.len() ==> (#[trigger] self.cars@[i])@.driver.is_some()
    }

    /// The cars, in the order in which they move.
    pub closed spec fn cars(&self) -> Seq<Car> {
        self.cars@
    }

    /// The view shows the cars in their order.
    pub proof fn lemma_view(&self)
        ensures
            self@ == views(self.cars()),
    {
    }

    pub fn new() -> (s: Scenario)
        ensures
            s.cars() == Seq::<Car>::empty(),
    {
        Scenario { cars: Vec::new() }
    }

    /// Adds `n` new cars behind those that are there, numbered from zero and
    /// named by `name` and their number, each in a shade of red that chance
    /// picks. A negative `n` adds none.
    pub fn with_cars<D>(self, n: i64, name: &str, draw: &D) -> (s: Scenario) where
        D: Fn(Single, Single) -> Single,

        requires
            call_requires(draw, (zero(), field_size())),
            call_requires(draw, (acceleration_floor(), acceleration_ceiling())),
        ensures
            s.cars().len() == self.cars().len() + (if n > 0 {
                n as int
            } else {
                0
            }),
            forall|i: int| 0 <= i < self.cars().len() ==> s.cars()[i] == self.cars()[i],
            forall|k: int|
                0 <= k < n ==> recruit((#[trigger] s.cars()[self.cars().len() + k])@, name@, k, draw),
    {
        proof {
            use_type_invariant(&self);
        }
        let mut cars: Vec<Car> = self.cars;
        let ghost start = cars@;
        let mut i: i64 = 0;
        while i < n
            invariant
                0 <= i,
                n > 0 ==> i <= n,
                n <= 0 ==> i == 0,
                call_requires(draw, (zero(), field_size())),
                call_requires(draw, (acceleration_floor(), acceleration_ceiling())),
                cars@.len() == start.len() + i,
                forall|j: int| 0 <= j < start.len() ==> cars@[j] == start[j],
                forall|j: int| 0 <= j < start.len() ==> (#[trigger] cars@[j])@.driver.is_some(),
                forall|k: int|
                    0 <= k < i ==> recruit((#[trigger] cars@[start.len() + k])@, name@, k, draw),
            decreases n - i,
        {
            let color: Color = Color::new_rgb(random_byte(), 0, 0);
            let car: Car = Car::new(color, numbered(name, i as u64), DriveHomeDriver::new(), draw);
            cars.push(car);
            i += 1;
        }
        assert forall|j: int| 0 <= j < cars@.len() implies (#[trigger] cars@[j])@.driver.is_some() by {
            if j >= start.len() {
                let k = j - start.len();
                assert(recruit(cars@[start.len() + k]@, name@, k, draw));
            }
        }
        Scenario { cars }
    }

    /// How many cars there are.
    pub fn len(&self) -> (n: usize)
        ensures
            n == self.cars().len(),
    {
        self.cars.len()
    }

    /// The car at place `i`. It has a driver, and its wheel angle and speed
    /// are in range, whatever has happened since it was made.
    pub fn car(&self, i: usize) -> (car: &Car)
        requires
            i < self.cars().len(),
        ensures
            *car == self.cars()[i as int],
            car@.driver.is_some(),
            car@.within_limits(),
    {
        proof {
            use_type_invariant(self);
        }
        let car: &Car = &self.cars[i];
        let _ = car.wheel_angle();
        let _ = car.speed();
        car
    }

    /// A shell of every car, in order.
    pub fn snapshot(&self) -> (scene: Vec<Car>)
        ensures
            pictures(scene@, self.cars()),
    {
        let mut scene: Vec<Car> = Vec::new();
        let mut i: usize = 0;
        while i < self.cars.len()
            invariant
                i <= self.cars@.len(),
                scene@.len() == i,
                forall|j: int| 0 <= j < i ==> (#[trigger] scene@[j])@ == self.cars@[j]@.shell(),
            decreases self.cars@.len() - i,
        {
            scene.push(self.cars[i].shell_copy());
            i += 1;
        }
        scene
    }

    /// Moves every car once. All cars are shown as they are before the step;
    /// then one after the other, in order, is updated from its own state and
    /// from what was shown. No car sees what this step has done to another.
    pub fn step<U>(&mut self, update: &U) where U: Fn(&Car, &Vec<Car>) -> Motion
        requires
            forall|car: &Car, scene: &Vec<Car>|
                car@.driver.is_some() ==> call_requires(update, (car, scene)),
        ensures
            stepped(update, old(self).cars(), final(self).cars()),
    {
        proof {
            use_type_invariant(&*self);
        }
        let scene: Vec<Car> = self.snapshot();
        let mut cars: Vec<Car> = Vec::new();
        core::mem::swap(&mut self.cars, &mut cars);
        let ghost before = cars@;
        let ghost mut motions: Seq<Motion> = Seq::empty();
        let mut i: usize = 0;
        while i < cars.len()
            invariant
                forall|car: &Car, scene: &Vec<Car>|
                    car@.driver.is_some() ==> call_requires(update, (car, scene)),
                forall|j: int| 0 <= j < before.len() ==> (#[trigger] before[j])@.driver.is_some(),
                pictures(scene@, before),
                cars@.len() == before.len(),
                i <= before.len(),
                motions.len() == i,
                forall|j: int| i <= j < before.len() ==> cars@[j] == before[j],
                forall|j: int|
                    0 <= j < i ==> call_ensures(update, (&before[j], &scene), #[trigger] motions[j])
                        && cars@[j]@ == before[j]@.moved(motions[j]),
            decreases before.len() - i,
        {
            assert(cars@[i as int] == before[i as int]);
            assert(before[i as int]@.driver.is_some());
            let motion: Motion = update(&cars[i], &scene);
            let mut car: Car = cars[i].duplicate();
            car.apply(motion);
            cars.set(i, car);
            proof {
                motions = motions.push(motion);
            }
            i += 1;
        }
        assert(steps_by(update, before, scene, motions, cars@));
        assert forall|j: int| 0 <= j < cars@.len() implies (#[trigger] cars@[j])@.driver.is_some() by {
            assert(cars@[j]@ == before[j]@.moved(motions[j]));
        }
        core::mem::swap(&mut self.cars, &mut cars);
    }

    /// Moves every car as many times as a tick has steps.
    pub fn tick<U>(&mut self, update: &U) where U: Fn(&Car, &Vec<Car>) -> Motion
        requires
            forall|car: &Car, scene: &Vec<Car>|
                car@.driver.is_some() ==> call_requires(update, (car, scene)),
        ensures
            advanced(update, old(self).cars(), final(self).cars(), STEPS_PER_TICK as nat),
    {
        let ghost before = self.cars@;
        let mut done: u32 = 0;
        while done < STEPS_PER_TICK
            invariant
                forall|car: &Car, scene: &Vec<Car>|
                    car@.driver.is_some() ==> call_requires(update, (car, scene)),
                done <= STEPS_PER_TICK,
                advanced(update, before, self.cars@, done as nat),
            decreases STEPS_PER_TICK - done,
        {
            let ghost between = self.cars@;
            self.step(update);
            assert(advanced(update, before, between, done as nat) && stepped(
                update,
                between,
                self.cars@,
            ));
            done += 1;
        }
    }

    /// Puts the cars into an order that chance picks. No car is changed,
    /// added or lost.
    pub fn shuffle(&mut self)
        ensures
            rearranged(old(self).cars(), final(self).cars()),
    {
        proof {
            use_type_invariant(&*self);
        }
        let mut cars: Vec<Car> = Vec::new();
        core::mem::swap(&mut self.cars, &mut cars);
        shuffle(&mut cars);
        core::mem::swap(&mut self.cars, &mut cars);
    }
}

} // verus!
