//! The tour of the mothership over the points of interest.
//!
//! The tour is greedy: from where it stands, the mothership goes to the
//! nearest point that it has not visited yet, by Manhattan distance, and
//! among equally near points to the one that was found first.

use vstd::prelude::*;
use vstd::seq_lib::to_multiset_remove;
use crate::coordinate::Coordinate;

verus! {

/// `pois[i]` is the next hop from `from`: no point is nearer, and every point
/// before it is farther.
pub open spec fn is_nearest(from: Coordinate, pois: Seq<Coordinate>, i: int) -> bool {
    &&& 0 <= i < pois.len()
    &&& forall|j: int|
        0 <= j < pois.len() ==> from.spec_manhatten_distance(pois[i]) <= from.spec_manhatten_distance(
            #[trigger] pois[j],
        )
    &&& forall|j: int|
        0 <= j < i ==> from.spec_manhatten_distance(pois[i]) < from.spec_manhatten_distance(
            #[trigger] pois[j],
        )
}

/// The index of the next hop from `from` among `pois`.
pub open spec fn nearest(from: Coordinate, pois: Seq<Coordinate>) -> int {
    choose|i: int| is_nearest(from, pois, i)
}

/// The greedy tour from `from` over `pois`: the next hop, then the tour from
/// there over the points that are left.
pub open spec fn tour(from: Coordinate, pois: Seq<Coordinate>) -> Seq<Coordinate>
    decreases pois.len(),
{
    let i = nearest(from, pois);
    if 0 <= i < pois.len() {
        seq![pois[i]] + tour(pois[i], pois.remove(i))
    } else {
        Seq::empty()
    }
}

/// There is at most one next hop.
pub proof fn lemma_nearest_unique(from: Coordinate, pois: Seq<Coordinate>, i: int, j: int)
    requires
        is_nearest(from, pois, i),
        is_nearest(from, pois, j),
    ensures
        i == j,
{
    let to_i = from.spec_manhatten_distance(pois[i]);
    let to_j = from.spec_manhatten_distance(pois[j]);
    assert(to_i <= to_j && to_j <= to_i);
}

/// The index of the next hop from `from` among `pois`; `None` when no point
/// is left.
pub fn nearest_index(from: Coordinate, pois: &Vec<Coordinate>) -> (found: Option<usize>)
    ensures
        found is None <==> pois@.len() == 0,
        found matches Some(i) ==> is_nearest(from, pois@, i as int) && i == nearest(from, pois@),
{
    if pois.len() == 0 {
        return None;
    }
    let mut best: usize = 0;
    let mut best_distance: u64 = from.manhatten_distance(pois[0]);
    let mut at: usize = 1;
    while at < pois.len()
        invariant
            1 <= at <= pois.len(),
            best < at,
            best_distance == from.spec_manhatten_distance(pois@[best as int]),
            is_nearest(from, pois@.subrange(0, at as int), best as int),
        decreases pois.len() - at,
    {
        let distance: u64 = from.manhatten_distance(pois[at]);
        let ghost seen = pois@.subrange(0, at as int);
        let ghost more = pois@.subrange(0, at + 1);
        proof {
            assert forall|j: int| 0 <= j < at implies more[j] == seen[j] by {}
        }
        if distance < best_distance {
            proof {
                assert forall|j: int| 0 <= j < at implies from.spec_manhatten_distance(more[at as int])
                    < from.spec_manhatten_distance(#[trigger] more[j]) by {
                    assert(from.spec_manhatten_distance(seen[best as int]) <= from.spec_manhatten_distance(
                        seen[j],
                    ));
                }
            }
            best = at;
            best_distance = distance;
        } else {
            proof {
                assert forall|j: int| 0 <= j < more.len() implies from.spec_manhatten_distance(
                    more[best as int],
                ) <= from.spec_manhatten_distance(#[trigger] more[j]) by {
                    if j < at {
                        assert(from.spec_manhatten_distance(seen[best as int])
                            <= from.spec_manhatten_distance(seen[j]));
                    }
                }
                assert forall|j: int| 0 <= j < best implies from.spec_manhatten_distance(
                    more[best as int],
                ) < from.spec_manhatten_distance(#[trigger] more[j]) by {
                    assert(from.spec_manhatten_distance(seen[best as int]) < from.spec_manhatten_distance(
                        seen[j],
                    ));
                }
            }
        }
        at = at + 1;
    }
    proof {
        assert(pois@.subrange(0, at as int) =~= pois@);
        lemma_nearest_unique(from, pois@, best as int, nearest(from, pois@));
    }
    Some(best)
}

/// One hop of the tour: takes the next hop from `current` out of
/// `remaining` and returns it; `None` when the tour is over.
pub fn next_hop(current: Coordinate, remaining: &mut Vec<Coordinate>) -> (hop: Option<Coordinate>)
    ensures
        hop is None <==> old(remaining)@.len() == 0,
        hop is None ==> final(remaining)@ == old(remaining)@,
        hop matches Some(next) ==> {
            let i = nearest(current, old(remaining)@);
            &&& is_nearest(current, old(remaining)@, i)
            &&& next == old(remaining)@[i]
            &&& final(remaining)@ == old(remaining)@.remove(i)
            &&& tour(current, old(remaining)@) == seq![next] + tour(next, final(remaining)@)
        },
        hop is None ==> tour(current, old(remaining)@) == Seq::<Coordinate>::empty(),
{
    match nearest_index(current, remaining) {
        None => {
            proof {
                let i = nearest(current, remaining@);
                assert(!(0 <= i < remaining@.len()));
            }
            None
        },
        Some(i) => Some(remaining.remove(i)),
    }
}

/// The whole tour from `start` over `pois`, in the order of the hops.
pub fn plan_route(start: Coordinate, pois: &Vec<Coordinate>) -> (route: Vec<Coordinate>)
    ensures
        route@ == tour(start, pois@),
{
    let mut remaining: Vec<Coordinate> = Vec::new();
    let mut at: usize = 0;
    while at < pois.len()
        invariant
            at <= pois.len(),
            remaining@ == pois@.subrange(0, at as int),
        decreases pois.len() - at,
    {
        remaining.push(pois[at]);
        at = at + 1;
    }
    assert(remaining@ =~= pois@);
    let mut route: Vec<Coordinate> = Vec::new();
    let mut current = start;
    loop
        invariant
            route@ + tour(current, remaining@) == tour(start, pois@),
        ensures
            route@ == tour(start, pois@),
        decreases remaining@.len(),
    {
        let ghost before = route@;
        let ghost rest = tour(current, remaining@);
        match next_hop(current, &mut remaining) {
            None => {
                assert(route@ + Seq::<Coordinate>::empty() =~= route@);
                break ;
            },
            Some(next) => {
                route.push(next);
                assert(route@ + tour(next, remaining@) =~= before + rest);
                current = next;
            },
        }
    }
    route
}

/// What the driver of a tour emits on a tick.
#[derive(Debug, Clone, Copy, PartialEq, Eq, Structural)]
pub enum RouteEvent {
    /// The mothership has moved to this point.
    Hop(Coordinate),
    /// No point is left: the tour is over.
    End,
}

/// The driver of a tour: where the mothership stands, the points that it
/// has still to visit, and whether the end of the tour has been signalled.
///
/// The driver works on points of its own. It takes one hop per tick, and
/// signals the end of the tour once, on the tick after the last hop.
#[derive(Debug)]
pub struct RouteDriver {
    pub current: Coordinate,
    pub remaining: Vec<Coordinate>,
    pub finished: bool,
}

/// A tour under way, as the driver sees it.
pub struct Drive {
    pub current: Coordinate,
    pub remaining: Seq<Coordinate>,
    pub finished: bool,
}

impl Drive {
    /// One tick of the driver: the tour afterwards, and the event emitted.
    pub open spec fn step(self) -> (Drive, Option<RouteEvent>) {
        if self.finished {
            (self, None)
        } else if self.remaining.len() == 0 {
            (Drive { finished: true, ..self }, Some(RouteEvent::End))
        } else {
            let i = nearest(self.current, self.remaining);
            (
                Drive { current: self.remaining[i], remaining: self.remaining.remove(i), finished: false },
                Some(RouteEvent::Hop(self.remaining[i])),
            )
        }
    }

    /// The tour after `ticks` ticks.
    pub open spec fn after(self, ticks: nat) -> Drive
        decreases ticks,
    {
        if ticks == 0 {
            self
        } else {
            self.after((ticks - 1) as nat).step().0
        }
    }

    /// The event that tick number `tick` emits, counting from 0.
    pub open spec fn emitted(self, tick: nat) -> Option<RouteEvent> {
        self.after(tick).step().1
    }
}

impl View for RouteDriver {
    type V = Drive;

    open spec fn view(&self) -> Drive {
        Drive { current: self.current, remaining: self.remaining@, finished: self.finished }
    }
}

impl RouteDriver {
    /// A driver at `start` with `pois` to visit.
    pub fn new(start: Coordinate, pois: Vec<Coordinate>) -> (driver: RouteDriver)
        ensures
            driver@ == (Drive { current: start, remaining: pois@, finished: false }),
    {
        RouteDriver { current: start, remaining: pois, finished: false }
    }

    /// One tick of the driver: takes the next hop, or signals the end of
    /// the tour if no point is left and the end was not signalled before.
    /// See [`Drive::step`].
    pub fn step(&mut self) -> (event: Option<RouteEvent>)
        ensures
            (final(self)@, event) == old(self)@.step(),
    {
        if self.finished {
            return None;
        }
        match next_hop(self.current, &mut self.remaining) {
            None => {
                self.finished = true;
                Some(RouteEvent::End)
            },
            Some(hop) => {
                self.current = hop;
                Some(RouteEvent::Hop(hop))
            },
        }
    }
}

/// A driver makes the tour: tick `k` moves to hop `k` of the tour from where
/// the driver started over its points. The tick after the last hop signals
/// the end of the tour, once, and every later tick emits nothing.
pub proof fn lemma_drive_is_tour(drive: Drive, tick: nat)
    requires
        !drive.finished,
    ensures
        ({
            let hops = tour(drive.current, drive.remaining);
            &&& hops.len() == drive.remaining.len()
            &&& tick < hops.len() ==> drive.emitted(tick) == Some(RouteEvent::Hop(hops[tick as int]))
            &&& tick == hops.len() ==> drive.emitted(tick) == Some(RouteEvent::End)
            &&& tick > hops.len() ==> drive.emitted(tick) is None
        }),
{
    lemma_tour_is_permutation(drive.current, drive.remaining);
    lemma_drive_after(drive, tick);
    let hops = tour(drive.current, drive.remaining);
    let now = drive.after(tick);
    if tick <= hops.len() {
        lemma_tour_is_permutation(now.current, now.remaining);
        assert(hops.skip(tick as int).len() == hops.len() - tick);
    }
    if tick < hops.len() {
        lemma_nearest_exists(now.current, now.remaining);
        let i = nearest(now.current, now.remaining);
        let rest = tour(now.remaining[i], now.remaining.remove(i));
        assert(hops.skip(tick as int) == seq![now.remaining[i]] + rest);
        assert(hops.skip(tick as int)[0] == hops[tick as int]);
        assert((seq![now.remaining[i]] + rest)[0] == now.remaining[i]);
    }
}

/// What a tour looks like after any number of ticks: the hops still to make
/// are those of the whole tour less the ones made, and the tick after the
/// last hop has marked the tour finished.
pub proof fn lemma_drive_after(drive: Drive, ticks: nat)
    requires
        !drive.finished,
    ensures
        ({
            let hops = tour(drive.current, drive.remaining);
            let now = drive.after(ticks);
            &&& ticks <= hops.len() ==> !now.finished && tour(now.current, now.remaining) == hops.skip(
                ticks as int,
            )
            &&& ticks > hops.len() ==> now.finished
        }),
    decreases ticks,
{
    let hops = tour(drive.current, drive.remaining);
    lemma_tour_is_permutation(drive.current, drive.remaining);
    if ticks == 0 {
        assert(hops.skip(0) =~= hops);
    } else {
        lemma_drive_after(drive, (ticks - 1) as nat);
        let before = drive.after((ticks - 1) as nat);
        if ticks <= hops.len() {
            lemma_tour_is_permutation(before.current, before.remaining);
            lemma_nearest_exists(before.current, before.remaining);
            let i = nearest(before.current, before.remaining);
            let rest = tour(before.remaining[i], before.remaining.remove(i));
            assert(hops.skip(ticks - 1) == seq![before.remaining[i]] + rest);
            assert(hops.skip(ticks as int) =~= (seq![before.remaining[i]] + rest).skip(1));
            assert((seq![before.remaining[i]] + rest).skip(1) =~= rest);
        } else if ticks == hops.len() + 1 {
            lemma_tour_is_permutation(before.current, before.remaining);
        }
    }
}

/// A tour visits every point once: it is a rearrangement of the points.
pub proof fn lemma_tour_is_permutation(from: Coordinate, pois: Seq<Coordinate>)
    ensures
        tour(from, pois).len() == pois.len(),
        tour(from, pois).to_multiset() == pois.to_multiset(),
    decreases pois.len(),
{
    broadcast use vstd::multiset::group_multiset_axioms;
    broadcast use vstd::seq_lib::group_to_multiset_ensures;

    if pois.len() == 0 {
        let i = nearest(from, pois);
        assert(tour(from, pois) =~= Seq::<Coordinate>::empty());
        assert(pois =~= Seq::<Coordinate>::empty());
    } else {
        lemma_nearest_exists(from, pois);
        let i = nearest(from, pois);
        let rest = pois.remove(i);
        lemma_tour_is_permutation(pois[i], rest);
        to_multiset_remove(pois, i);
        let hops = tour(pois[i], rest);
        assert(tour(from, pois) == seq![pois[i]] + hops);
        assert((seq![pois[i]] + hops).to_multiset() =~= hops.to_multiset().insert(pois[i])) by {
            vstd::seq_lib::to_multiset_insert(hops, 0, pois[i]);
            assert(hops.insert(0, pois[i]) =~= seq![pois[i]] + hops);
        }
        assert(pois.to_multiset().count(pois[i]) > 0) by {
            vstd::seq_lib::to_multiset_contains(pois, pois[i]);
            assert(pois.contains(pois[i]));
        }
        assert(pois.to_multiset().remove(pois[i]).insert(pois[i]) =~= pois.to_multiset());
    }
}

/// Where a point is left, one of them is the next hop.
pub proof fn lemma_nearest_exists(from: Coordinate, pois: Seq<Coordinate>)
    requires
        pois.len() > 0,
    ensures
        is_nearest(from, pois, nearest(from, pois)),
    decreases pois.len(),
{
    if pois.len() == 1 {
        assert(is_nearest(from, pois, 0));
    } else {
        let front = pois.drop_last();
        lemma_nearest_exists(from, front);
        let b = nearest(from, front);
        let last = pois.len() - 1;
        assert forall|j: int| 0 <= j < last implies pois[j] == front[j] by {}
        if from.spec_manhatten_distance(pois[last]) < from.spec_manhatten_distance(pois[b]) {
            assert forall|j: int| 0 <= j < last implies from.spec_manhatten_distance(pois[last])
                < from.spec_manhatten_distance(#[trigger] pois[j]) by {
                assert(from.spec_manhatten_distance(front[b]) <= from.spec_manhatten_distance(front[j]));
            }
            assert(is_nearest(from, pois, last));
        } else {
            assert forall|j: int| 0 <= j < pois.len() implies from.spec_manhatten_distance(pois[b])
                <= from.spec_manhatten_distance(#[trigger] pois[j]) by {
                if j < last {
                    assert(from.spec_manhatten_distance(front[b]) <= from.spec_manhatten_distance(
                        front[j],
                    ));
                }
            }
            assert forall|j: int| 0 <= j < b implies from.spec_manhatten_distance(pois[b])
                < from.spec_manhatten_distance(#[trigger] pois[j]) by {
                assert(from.spec_manhatten_distance(front[b]) < from.spec_manhatten_distance(front[j]));
            }
            assert(is_nearest(from, pois, b));
        }
    }
}

} // verus!
