//! Finding the record under the pointer.

use vstd::prelude::*;

use crate::binary64::Binary64;
use crate::binary64::LARGEST;
use crate::plot::REACH;
use crate::records::TemperatureRecord;

verus! {

/// A record of the plot, and how far the pointer is from it: in seconds along
/// the time axis, and in degrees along the other.
#[derive(Clone, Copy, Debug, PartialEq, Eq, Structural)]
pub struct HoverPoint {
    pub record: TemperatureRecord,
    pub time_distance: Binary64,
    pub temperature_distance: Binary64,
}

/// Along which axis a distance is taken.
#[derive(Clone, Copy, Debug, PartialEq, Eq, Structural)]
pub enum Axis {
    Time,
    Temperature,
}

impl HoverPoint {
    pub open spec fn spec_distance(self, axis: Axis) -> Binary64 {
        match axis {
            Axis::Time => self.time_distance,
            Axis::Temperature => self.temperature_distance,
        }
    }

    /// How far the pointer is along an axis.
    pub fn distance(self, axis: Axis) -> (value: Binary64)
        ensures
            value == self.spec_distance(axis),
    {
        match axis {
            Axis::Time => self.time_distance,
            Axis::Temperature => self.temperature_distance,
        }
    }
}

/// Whether a point is to be considered: all are without an instant, and with
/// one those that lie at it.
pub open spec fn is_eligible(point: HoverPoint, instant: Option<i64>) -> bool {
    instant is Some ==> point.record.timestamp == instant->0
}

/// Whether `best` is the first of the eligible points that are closest to the
/// pointer along an axis. A point is only considered if its distance is less
/// than the largest finite value.
pub open spec fn is_first_closest(
    points: Seq<HoverPoint>,
    axis: Axis,
    instant: Option<i64>,
    best: Option<int>,
) -> bool {
    match best {
        None => forall|j: int|
            0 <= j < points.len() && is_eligible(#[trigger] points[j], instant)
                ==> !points[j].spec_distance(axis).less(Binary64 { bits: LARGEST }),
        Some(i) => {
            &&& 0 <= i < points.len()
            &&& is_eligible(points[i], instant)
            &&& points[i].spec_distance(axis).less(Binary64 { bits: LARGEST })
            &&& forall|j: int|
                0 <= j < points.len() && is_eligible(#[trigger] points[j], instant)
                    ==> !points[j].spec_distance(axis).less(points[i].spec_distance(axis))
            &&& forall|j: int|
                0 <= j < i && is_eligible(#[trigger] points[j], instant) && points[j].spec_distance(
                    axis,
                ).is_number() ==> points[i].spec_distance(axis).less(points[j].spec_distance(axis))
        },
    }
}

/// Whether `found` follows from the point that is nearest in time: the first
/// with the closest temperature of those at the same instant, if the nearest
/// point is within reach.
pub open spec fn is_found_from(
    points: Seq<HoverPoint>,
    nearest: Option<int>,
    found: Option<int>,
) -> bool {
    if nearest is Some && points[nearest->0].time_distance.less(Binary64 { bits: REACH }) {
        let instant = points[nearest->0].record.timestamp;
        is_first_closest(points, Axis::Temperature, Some(instant), found)
    } else {
        found is None
    }
}

/// Whether `found` is the record under the pointer: of the records at the
/// instant that is closest to the pointer, and within reach of it, the one
/// with the closest temperature.
pub open spec fn is_under_pointer(points: Seq<HoverPoint>, found: Option<int>) -> bool {
    exists|nearest: Option<int>| #[trigger]
        is_first_closest(points, Axis::Time, None, nearest) && is_found_from(points, nearest, found)
}

/// Law: there is at most one first closest point.
pub proof fn law_first_closest_is_determined(
    points: Seq<HoverPoint>,
    axis: Axis,
    instant: Option<i64>,
    a: Option<int>,
    b: Option<int>,
)
    requires
        is_first_closest(points, axis, instant, a),
        is_first_closest(points, axis, instant, b),
    ensures
        a == b,
{
    if a is Some && b is Some {
        let i = a->0;
        let j = b->0;
        assert(is_eligible(points[i], instant) && is_eligible(points[j], instant));
    } else if a is Some {
        assert(is_eligible(points[a->0], instant));
    } else if b is Some {
        assert(is_eligible(points[b->0], instant));
    }
}

/// Law: at most one record is under the pointer.
pub proof fn law_record_under_pointer_is_determined(
    points: Seq<HoverPoint>,
    a: Option<int>,
    b: Option<int>,
)
    requires
        is_under_pointer(points, a),
        is_under_pointer(points, b),
    ensures
        a == b,
{
    let p = choose|nearest: Option<int>| #[trigger]
        is_first_closest(points, Axis::Time, None, nearest) && is_found_from(points, nearest, a);
    let q = choose|nearest: Option<int>| #[trigger]
        is_first_closest(points, Axis::Time, None, nearest) && is_found_from(points, nearest, b);
    law_first_closest_is_determined(points, Axis::Time, None, p, q);
    if p is Some && points[p->0].time_distance.less(Binary64 { bits: REACH }) {
        let instant = Some(points[p->0].record.timestamp);
        law_first_closest_is_determined(points, Axis::Temperature, instant, a, b);
    }
}

/// A position in a list as a mathematical integer.
pub open spec fn as_index(found: Option<usize>) -> Option<int> {
    match found {
        Some(i) => Some(i as int),
        None => None,
    }
}

/// Finds the first of the eligible points that are closest to the pointer.
pub fn find_closest(points: &Vec<HoverPoint>, axis: Axis, instant: Option<i64>) -> (best: Option<
    usize,
>)
    ensures
        is_first_closest(points@, axis, instant, as_index(best)),
{
    let mut best: Option<usize> = None;
    let mut closest = Binary64 { bits: LARGEST };
    let mut i: usize = 0;
    while i < points.len()
        invariant
            i <= points.len(),
            is_first_closest(points@.take(i as int), axis, instant, as_index(best)),
            best is None ==> closest == (Binary64 { bits: LARGEST }),
            best is Some ==> closest == points@[best->0 as int].spec_distance(axis),
        decreases points.len() - i,
    {
        let point = points[i];
        let eligible = match instant {
            Some(at) => point.record.timestamp == at,
            None => true,
        };
        let distance = point.distance(axis);
        let ghost before = points@.take(i as int);
        let ghost after = points@.take(i + 1);
        let ghost old_best = as_index(best);
        assert(forall|j: int| 0 <= j < i ==> #[trigger] after[j] == before[j]);
        assert(after[i as int] == point);
        if eligible && distance.is_less(closest) {
            closest = distance;
            best = Some(i);
        }
        proof {
            lemma_closest_of_one_more(before, point, axis, instant, old_best, as_index(best));
            assert(before.push(point) =~= after);
        }
        i = i + 1;
    }
    assert(points@.take(i as int) =~= points@);
    best
}

/// One more point is the new first closest if it is eligible and closer.
proof fn lemma_closest_of_one_more(
    before: Seq<HoverPoint>,
    point: HoverPoint,
    axis: Axis,
    instant: Option<i64>,
    old_best: Option<int>,
    best: Option<int>,
)
    requires
        is_first_closest(before, axis, instant, old_best),
        best == (if is_eligible(point, instant) && point.spec_distance(axis).less(
            if old_best is Some {
                before[old_best->0].spec_distance(axis)
            } else {
                Binary64 { bits: LARGEST }
            },
        ) {
            Some(before.len() as int)
        } else {
            old_best
        }),
    ensures
        is_first_closest(before.push(point), axis, instant, best),
{
    let after = before.push(point);
    let n = before.len() as int;
    assert(after[n] == point);
    assert forall|j: int| 0 <= j < n implies #[trigger] after[j] == before[j] by {}
    match best {
        None => {
            assert forall|j: int|
                0 <= j < after.len() && is_eligible(#[trigger] after[j], instant) implies !after[j].spec_distance(
                axis,
            ).less(Binary64 { bits: LARGEST }) by {
                if j < n {
                    assert(is_eligible(before[j], instant));
                }
            }
        },
        Some(i) => {
            assert forall|j: int|
                0 <= j < after.len() && is_eligible(#[trigger] after[j], instant) implies !after[j].spec_distance(
                axis,
            ).less(after[i].spec_distance(axis)) by {
                if j < n {
                    assert(is_eligible(before[j], instant));
                }
            }
            assert forall|j: int|
                0 <= j < i && is_eligible(#[trigger] after[j], instant) && after[j].spec_distance(
                    axis,
                ).is_number() implies after[i].spec_distance(axis).less(
                after[j].spec_distance(axis),
            ) by {
                assert(is_eligible(before[j], instant));
            }
        },
    }
}

/// Finds the record under the pointer.
pub fn find_under_pointer(points: &Vec<HoverPoint>) -> (found: Option<usize>)
    ensures
        is_under_pointer(points@, as_index(found)),
{
    let nearest = find_closest(points, Axis::Time, None);
    assert(is_first_closest(points@, Axis::Time, None, as_index(nearest)));
    match nearest {
        Some(i) => {
            if points[i].time_distance.is_less(Binary64 { bits: REACH }) {
                find_closest(points, Axis::Temperature, Some(points[i].record.timestamp))
            } else {
                None
            }
        },
        None => None,
    }
}

/// Law: of the points at the instant of the one under the pointer, none has a
/// temperature closer to the pointer, and none before it in the list one as
/// close.
pub proof fn law_closest_temperature_is_under_pointer(points: Seq<HoverPoint>, i: int)
    requires
        is_under_pointer(points, Some(i)),
    ensures
        0 <= i < points.len(),
        points[i].temperature_distance.less(Binary64 { bits: 0x7FEF_FFFF_FFFF_FFFF }),
        forall|j: int|
            0 <= j < points.len() && (#[trigger] points[j]).record.timestamp
                == points[i].record.timestamp ==> !points[j].temperature_distance.less(
                points[i].temperature_distance,
            ),
        forall|j: int|
            0 <= j < i && (#[trigger] points[j]).record.timestamp == points[i].record.timestamp
                && points[j].temperature_distance.is_number()
                ==> points[i].temperature_distance.less(points[j].temperature_distance),
{
    let nearest = choose|nearest: Option<int>| #[trigger]
        is_first_closest(points, Axis::Time, None, nearest) && is_found_from(
            points,
            nearest,
            Some(i),
        );
    let instant = Some(points[nearest->0].record.timestamp);
    assert(is_first_closest(points, Axis::Temperature, instant, Some(i)));
    assert forall|j: int|
        0 <= j < points.len() && (#[trigger] points[j]).record.timestamp
            == points[i].record.timestamp implies is_eligible(points[j], instant) by {}
}

/// Law: the point under the pointer lies at the instant of the first point that
/// no other is closer to in time, and that one is less than three hours away.
pub proof fn law_closest_instant_is_under_pointer(points: Seq<HoverPoint>, i: int)
    requires
        is_under_pointer(points, Some(i)),
    ensures
        exists|n: int|
            {
                &&& 0 <= n < points.len()
                &&& (#[trigger] points[n]).record.timestamp == points[i].record.timestamp
                &&& points[n].time_distance.less(Binary64 { bits: 0x40C5_1800_0000_0000 })
                &&& forall|j: int|
                    0 <= j < points.len() ==> !(#[trigger] points[j]).time_distance.less(
                        points[n].time_distance,
                    )
                &&& forall|j: int|
                    0 <= j < n && (#[trigger] points[j]).time_distance.is_number()
                        ==> points[n].time_distance.less(points[j].time_distance)
            },
{
    let nearest = choose|nearest: Option<int>| #[trigger]
        is_first_closest(points, Axis::Time, None, nearest) && is_found_from(
            points,
            nearest,
            Some(i),
        );
    let n = nearest->0;
    assert(is_eligible(points[i], Some(points[n].record.timestamp)));
    assert forall|j: int| 0 <= j < points.len() implies is_eligible(#[trigger] points[j], None) by {}
    assert(points[n].record.timestamp == points[i].record.timestamp);
}

/// Law: where two points are at the same instant and as far from the pointer in
/// time, less than three hours and no farther than any other point, the one with
/// the closer temperature is found, if no third point is at that instant.
pub proof fn law_closer_of_two_is_under_pointer(
    points: Seq<HoverPoint>,
    found: Option<int>,
    a: int,
    b: int,
)
    requires
        is_under_pointer(points, found),
        0 <= a < points.len(),
        0 <= b < points.len(),
        points[a].record.timestamp == points[b].record.timestamp,
        points[a].time_distance == points[b].time_distance,
        points[a].time_distance.less(Binary64 { bits: 0x40C5_1800_0000_0000 }),
        forall|j: int|
            0 <= j < points.len() && j != a && j != b ==> points[a].time_distance.less(
                (#[trigger] points[j]).time_distance,
            ) && points[j].record.timestamp != points[a].record.timestamp,
        points[a].temperature_distance.less(points[b].temperature_distance),
        points[a].temperature_distance.less(Binary64 { bits: 0x7FEF_FFFF_FFFF_FFFF }),
    ensures
        found == Some(a),
{
    let nearest = choose|nearest: Option<int>| #[trigger]
        is_first_closest(points, Axis::Time, None, nearest) && is_found_from(
            points,
            nearest,
            found,
        );
    assert(is_eligible(points[a], None) && is_eligible(points[b], None));
    assert(nearest == Some(a) || nearest == Some(b));
    let instant = Some(points[a].record.timestamp);
    assert(is_eligible(points[a], instant) && is_eligible(points[b], instant));
}

/// Law: nothing is under the pointer where every point is three hours or more
/// away in time.
pub proof fn law_nothing_is_under_pointer(points: Seq<HoverPoint>, found: Option<int>)
    requires
        is_under_pointer(points, found),
        forall|j: int|
            0 <= j < points.len() ==> !(#[trigger] points[j]).time_distance.less(
                Binary64 { bits: 0x40C5_1800_0000_0000 },
            ),
    ensures
        found is None,
{
}

/// Law: the first closest point in time is at a distance below the largest finite
/// one, no point that is considered is closer, and none before it in the list is
/// as close. There is none exactly if no distance counts. All points are
/// considered without an instant, and with one those at it.
pub proof fn law_first_closest_in_time(
    points: Seq<HoverPoint>,
    instant: Option<i64>,
    best: Option<int>,
    j: int,
)
    requires
        is_first_closest(points, Axis::Time, instant, best),
        0 <= j < points.len(),
        instant is None || points[j].record.timestamp == instant->0,
    ensures
        best is None ==> !points[j].time_distance.less(Binary64 { bits: 0x7FEF_FFFF_FFFF_FFFF }),
        best matches Some(i) ==> {
            &&& 0 <= i < points.len()
            &&& instant is None || points[i].record.timestamp == instant->0
            &&& points[i].time_distance.less(Binary64 { bits: 0x7FEF_FFFF_FFFF_FFFF })
            &&& !points[j].time_distance.less(points[i].time_distance)
            &&& j < i && points[j].time_distance.is_number() ==> points[i].time_distance.less(
                points[j].time_distance,
            )
        },
{
    assert(is_eligible(points[j], instant));
}

/// Law: what holds of the first closest point in time holds of the first closest
/// in temperature too.
pub proof fn law_first_closest_in_temperature(
    points: Seq<HoverPoint>,
    instant: Option<i64>,
    best: Option<int>,
    j: int,
)
    requires
        is_first_closest(points, Axis::Temperature, instant, best),
        0 <= j < points.len(),
        instant is None || points[j].record.timestamp == instant->0,
    ensures
        best is None ==> !points[j].temperature_distance.less(
            Binary64 { bits: 0x7FEF_FFFF_FFFF_FFFF },
        ),
        best matches Some(i) ==> {
            &&& 0 <= i < points.len()
            &&& instant is None || points[i].record.timestamp == instant->0
            &&& points[i].temperature_distance.less(Binary64 { bits: 0x7FEF_FFFF_FFFF_FFFF })
            &&& !points[j].temperature_distance.less(points[i].temperature_distance)
            &&& j < i && points[j].temperature_distance.is_number()
                ==> points[i].temperature_distance.less(points[j].temperature_distance)
        },
{
    assert(is_eligible(points[j], instant));
}

/// Law: where `nearest` is the first point that no other is closer to in time,
/// less than three hours away, a point is found as soon as some point at the same
/// instant has a temperature at a distance below the largest finite one.
pub proof fn law_closest_instant_is_found(
    points: Seq<HoverPoint>,
    found: Option<int>,
    nearest: int,
    other: int,
)
    requires
        is_under_pointer(points, found),
        0 <= nearest < points.len(),
        points[nearest].time_distance.less(Binary64 { bits: 0x40C5_1800_0000_0000 }),
        forall|j: int|
            0 <= j < points.len() ==> !(#[trigger] points[j]).time_distance.less(
                points[nearest].time_distance,
            ),
        forall|j: int|
            0 <= j < nearest && (#[trigger] points[j]).time_distance.is_number()
                ==> points[nearest].time_distance.less(points[j].time_distance),
        0 <= other < points.len(),
        points[other].record.timestamp == points[nearest].record.timestamp,
        points[other].temperature_distance.less(Binary64 { bits: 0x7FEF_FFFF_FFFF_FFFF }),
    ensures
        found is Some,
        0 <= found->0 < points.len(),
        points[found->0].record.timestamp == points[nearest].record.timestamp,
        !points[other].temperature_distance.less(points[found->0].temperature_distance),
{
    let chosen = choose|chosen: Option<int>| #[trigger]
        is_first_closest(points, Axis::Time, None, chosen) && is_found_from(points, chosen, found);
    assert(is_first_closest(points, Axis::Time, None, Some(nearest)));
    law_first_closest_is_determined(points, Axis::Time, None, chosen, Some(nearest));
    assert(is_eligible(points[other], Some(points[nearest].record.timestamp)));
}

} // verus!
