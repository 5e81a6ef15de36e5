//! The driver that follows the car ahead, or wanders.

use crate::car::{Car, CarView};
use crate::limits::{
    field_size, follow_gap, speed_limit, wander_speed, zero, FIELD_SIZE_BITS, FOLLOW_GAP_BITS,
    SPEED_LIMIT_BITS, WANDER_SPEED_BITS, ZERO_BITS,
};
use crate::point::Point;
use crate::single::Single;
use crate::waypoint::Waypoint;
use vstd::prelude::*;

verus! {

/// How much redder `me` is than `other`. This, not a distance on the plane, is
/// what the driver goes by when it looks for the car to follow.
pub open spec fn score(me: CarView, other: CarView) -> int {
    me.color.red as int - other.color.red as int
}

/// Whether `other` can lead `me`: it stands somewhere else and `me` is redder.
pub open spec fn qualifies(me: CarView, other: CarView) -> bool {
    !me.location.coincides(other.location) && score(me, other) > 0
}

/// Whether `others[i]` is the car that `me` follows: it qualifies, no
/// qualifying car scores less, and every qualifying car before it scores more.
pub open spec fn leads(me: CarView, others: Seq<CarView>, i: int) -> bool {
    &&& 0 <= i < others.len()
    &&& qualifies(me, others[i])
    &&& forall|j: int|
        0 <= j < others.len() && qualifies(me, #[trigger] others[j]) ==> score(me, others[i])
            <= score(me, others[j])
    &&& forall|j: int|
        0 <= j < i && qualifies(me, #[trigger] others[j]) ==> score(me, others[i]) < score(
            me,
            others[j],
        )
}

/// Whether `me` finds nobody to follow among `others`.
pub open spec fn leaderless(me: CarView, others: Seq<CarView>) -> bool {
    forall|j: int| 0 <= j < others.len() ==> !qualifies(me, #[trigger] others[j])
}

/// The cars of a vector as the contracts see them.
pub open spec fn views(cars: Seq<Car>) -> Seq<CarView> {
    cars.map_values(|c: Car| c@)
}

/// Follows the car whose red is nearest below its own car's red, and wanders
/// where there is none.
#[derive(Clone, Copy, Debug, PartialEq, Eq, Structural)]
pub struct DriveHomeDriver {}

impl DriveHomeDriver {
    pub fn new() -> (d: DriveHomeDriver)
        ensures
            d == (DriveHomeDriver {  }),
    {
        DriveHomeDriver {  }
    }

    /// Index of the car that `me` follows, if there is one.
    pub fn nearest_car(&self, me: &Car, others: &Vec<Car>) -> (r: Option<usize>)
        ensures
            match r {
                Some(i) => leads(me@, views(others@), i as int),
                None => leaderless(me@, views(others@)),
            },
    {
        let mine: i16 = me.color().red as i16;
        let here: Point = me.location();
        let mut found: Option<usize> = None;
        let mut least: i16 = 0;
        let mut k: usize = 0;
        while k < others.len()
            invariant
                k <= others.len(),
                mine == me@.color.red,
                here == me@.location,
                match found {
                    Some(i) => leads(me@, views(others@).take(k as int), i as int) && least
                        == score(me@, others@[i as int]@),
                    None => leaderless(me@, views(others@).take(k as int)),
                },
            decreases others.len() - k,
        {
            let other: &Car = &others[k];
            let gain: i16 = mine - other.color().red as i16;
            let ghost seen = views(others@).take(k as int);
            let ghost next = views(others@).take(k as int + 1);
            assert(forall|j: int| 0 <= j < k ==> next[j] == seen[j]);
            assert(next[k as int] == others@[k as int]@);
            if !here.same(other.location()) && gain > 0 {
                let better: bool = match found {
                    Some(_) => gain < least,
                    None => true,
                };
                if better {
                    found = Some(k);
                    least = gain;
                }
            }
            k += 1;
        }
        assert(views(others@).take(k as int) =~= views(others@));
        found
    }

    /// The next waypoint of `me` among `others`.
    ///
    /// Where `me` has a leader, the waypoint is the place that `behind` gives
    /// for the leader's location and heading at the follow gap, approached at
    /// the speed limit. Where it has none, both coordinates are drawn with
    /// `draw` between zero and the field size, and approached at the wander
    /// speed.
    pub fn next_destination<B, D>(
        &mut self,
        me: &Car,
        others: &Vec<Car>,
        behind: &B,
        draw: &D,
    ) -> (w: Waypoint) where B: Fn(Point, Single, Single) -> Point, D: Fn(Single, Single) -> Single
        requires
            forall|i: int|
                0 <= i < others.len() ==> call_requires(
                    behind,
                    (#[trigger] others[i]@.location, others[i]@.heading, follow_gap()),
                ),
            call_requires(draw, (zero(), field_size())),
        ensures
            *final(self) == *old(self),
            forall|i: int|
                leads(me@, views(others@), i) ==> w.speed == speed_limit() && call_ensures(
                    behind,
                    (others[i]@.location, others[i]@.heading, follow_gap()),
                    w.location,
                ),
            leaderless(me@, views(others@)) ==> w.speed == wander_speed() && call_ensures(
                draw,
                (zero(), field_size()),
                w.location.x,
            ) && call_ensures(draw, (zero(), field_size()), w.location.y),
    {
        match self.nearest_car(me, others) {
            Some(i) => {
                proof {
                    lemma_one_leader(me@, views(others@), i as int);
                }
                let leader: &Car = &others[i];
                let place: Point = behind(
                    leader.location(),
                    leader.heading(),
                    Single::from_bits(FOLLOW_GAP_BITS),
                );
                Waypoint::new(place, Single::from_bits(SPEED_LIMIT_BITS))
            },
            None => {
                let x: Single = draw(Single::from_bits(ZERO_BITS), Single::from_bits(FIELD_SIZE_BITS));
                let y: Single = draw(Single::from_bits(ZERO_BITS), Single::from_bits(FIELD_SIZE_BITS));
                Waypoint::new_2f(x, y, Single::from_bits(WANDER_SPEED_BITS))
            },
        }
    }
}

/// A car has at most one leader, and none where it is leaderless.
pub proof fn lemma_one_leader(me: CarView, others: Seq<CarView>, i: int)
    requires
        leads(me, others, i),
    ensures
        !leaderless(me, others),
        forall|j: int| leads(me, others, j) ==> j == i,
{
    assert(qualifies(me, others[i]));
    assert forall|j: int| leads(me, others, j) implies j == i by {
        if j < i {
            assert(qualifies(me, others[j]));
        } else if i < j {
            assert(qualifies(me, others[i]));
        }
    }
}

/// A car finds nobody to follow where no other car is less red than it is.
/// So a car that is alone in the scene, which shows it too, wanders.
pub proof fn lemma_no_leader_among_redder(me: CarView, others: Seq<CarView>)
    requires
        forall|j: int| 0 <= j < others.len() ==> me.color.red <= (#[trigger] others[j]).color.red,
    ensures
        leaderless(me, others),
        leaderless(me, seq![me.shell()]),
{
    assert(seq![me.shell()][0] == me.shell());
}

/// With one other car in the scene, that car leads exactly if it stands
/// somewhere else and is less red; where the two are equally red, nobody
/// leads. Which of the two comes first in the scene makes no difference to
/// who leads.
pub proof fn lemma_pair(me: CarView, other: CarView)
    ensures
        qualifies(me, other) ==> leads(me, seq![me.shell(), other], 1) && leads(
            me,
            seq![other, me.shell()],
            0,
        ),
        !qualifies(me, other) ==> leaderless(me, seq![me.shell(), other]) && leaderless(
            me,
            seq![other, me.shell()],
        ),
        me.color.red == other.color.red ==> !qualifies(me, other),
        me.color.red > other.color.red && !me.location.coincides(other.location) ==> qualifies(
            me,
            other,
        ),
{
    let first = seq![me.shell(), other];
    let second = seq![other, me.shell()];
    assert(first[0] == me.shell() && first[1] == other);
    assert(second[0] == other && second[1] == me.shell());
    assert(!qualifies(me, me.shell()));
}

} // verus!
