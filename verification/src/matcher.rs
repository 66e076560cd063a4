//! The proximity matcher: which incomplete todos have a trigger zone
//! within range of a live coordinate.
//!
//! Great-circle distances are measured outside this module; the matcher is
//! handed, for each todo, the distance in millimetres from the live point
//! to each of its zones, and applies the matching policy: a todo counts as
//! nearby when it is not completed and at least one of its zones has the
//! measured distance within the zone's radius, boundary included.

use vstd::prelude::*;

use crate::model::LocationTrigger;
use crate::model::Todo;
use crate::model::TodoView;

verus! {

/// A zone matches at a measured distance when the distance does not exceed
/// the radius: a point exactly on the boundary matches.
pub open spec fn spec_zone_within(distance_mm: u64, zone: LocationTrigger) -> bool {
    distance_mm <= zone.radius_mm
}

/// Whether a zone matches at a measured distance, boundary included.
pub fn zone_within(distance_mm: u64, zone: &LocationTrigger) -> (r: bool)
    ensures
        r == spec_zone_within(distance_mm, *zone),
{
    distance_mm <= zone.radius_mm
}

/// Some zone matches its measured distance. Positions beyond either
/// sequence are not considered.
pub open spec fn spec_any_zone_within(zones: Seq<LocationTrigger>, dists: Seq<u64>) -> bool {
    exists|j: int|
        0 <= j < zones.len() && j < dists.len() && #[trigger] spec_zone_within(dists[j], zones[j])
}

/// A todo is nearby when it is not completed and at least one of its
/// trigger zones matches its measured distance. A todo with no zones is
/// never nearby.
pub open spec fn spec_todo_nearby(t: TodoView, dists: Seq<u64>) -> bool {
    !t.completed && spec_any_zone_within(t.zones(), dists)
}

fn any_zone_within(zones: &Vec<LocationTrigger>, dists: &Vec<u64>) -> (r: bool)
    ensures
        r == spec_any_zone_within(zones@, dists@),
{
    let mut j: usize = 0;
    while j < zones.len() && j < dists.len()
        invariant
            forall|k: int|
                0 <= k < j ==> !(#[trigger] spec_zone_within(dists@[k], zones@[k])),
        decreases zones.len() - j,
    {
        if zone_within(dists[j], &zones[j]) {
            assert(spec_zone_within(dists@[j as int], zones@[j as int]));
            return true;
        }
        j = j + 1;
    }
    false
}

/// Whether one todo is nearby, given the measured distance to each of its
/// zones. Distances beyond the todo's own zone list are ignored, as are
/// zones with no measured distance.
pub fn todo_is_nearby(todo: &Todo, zone_distances_mm: &Vec<u64>) -> (r: bool)
    ensures
        r == spec_todo_nearby(todo@, zone_distances_mm@),
{
    if todo.completed {
        return false;
    }
    match &todo.location_triggers {
        Some(zones) => any_zone_within(zones, zone_distances_mm),
        None => false,
    }
}

/// The views of a sequence of records.
pub open spec fn views_of(ts: Seq<Todo>) -> Seq<TodoView> {
    ts.map_values(|t: Todo| t@)
}

/// The views of the per-todo distance lists.
pub open spec fn dist_views(ds: Seq<Vec<u64>>) -> Seq<Seq<u64>> {
    ds.map_values(|d: Vec<u64>| d@)
}

/// The nearby todos among `ts`, in order: position `i` of `ts` is paired
/// with position `i` of `ds`.
pub open spec fn spec_nearby(ts: Seq<TodoView>, ds: Seq<Seq<u64>>) -> Seq<TodoView>
    decreases ts.len(),
{
    if ts.len() == 0 {
        Seq::empty()
    } else {
        let prefix = spec_nearby(ts.drop_last(), ds);
        if spec_todo_nearby(ts.last(), ds[ts.len() - 1]) {
            prefix.push(ts.last())
        } else {
            prefix
        }
    }
}

/// The order-preserving subsequence of nearby todos: a todo is kept
/// exactly when it is incomplete and some zone of it matches its measured
/// distance. `distances_mm` holds, for each todo in turn, the distance in
/// millimetres from the live point to each of that todo's zones.
pub fn nearby(todos: &Vec<Todo>, distances_mm: &Vec<Vec<u64>>) -> (res: Vec<Todo>)
    requires
        distances_mm@.len() == todos@.len(),
    ensures
        views_of(res@) == spec_nearby(views_of(todos@), dist_views(distances_mm@)),
{
    let mut out: Vec<Todo> = Vec::new();
    let mut i: usize = 0;
    while i < todos.len()
        invariant
            distances_mm@.len() == todos@.len(),
            i <= todos.len(),
            views_of(out@) == spec_nearby(
                views_of(todos@).take(i as int),
                dist_views(distances_mm@),
            ),
        decreases todos.len() - i,
    {
        let ghost ts = views_of(todos@);
        let ghost ds = dist_views(distances_mm@);
        let ghost prev = out@;
        if todo_is_nearby(&todos[i], &distances_mm[i]) {
            out.push(todos[i].clone());
        }
        proof {
            assert(ts.take(i + 1).drop_last() =~= ts.take(i as int));
            assert(ts.take(i + 1).last() == ts[i as int]);
            if spec_todo_nearby(ts[i as int], ds[i as int]) {
                assert(views_of(out@) =~= views_of(prev).push(out@.last()@));
            } else {
                assert(views_of(out@) == views_of(prev));
            }
        }
        i = i + 1;
    }
    proof {
        assert(views_of(todos@).take(todos@.len() as int) =~= views_of(todos@));
    }
    out
}

/// Law: every todo in the nearby result comes from the input, at a
/// position where the matching policy holds. In particular the result is
/// made only of input records that are incomplete and have a matching
/// zone.
pub proof fn lemma_nearby_elements(ts: Seq<TodoView>, ds: Seq<Seq<u64>>)
    ensures
        forall|k: int|
            0 <= k < spec_nearby(ts, ds).len() ==> exists|i: int|
                0 <= i < ts.len() && #[trigger] spec_nearby(ts, ds)[k] == ts[i]
                    && spec_todo_nearby(ts[i], ds[i]),
    decreases ts.len(),
{
    if ts.len() > 0 {
        lemma_nearby_elements(ts.drop_last(), ds);
        let prefix = spec_nearby(ts.drop_last(), ds);
        assert forall|k: int| 0 <= k < spec_nearby(ts, ds).len() implies exists|i: int|
            0 <= i < ts.len() && #[trigger] spec_nearby(ts, ds)[k] == ts[i]
                && spec_todo_nearby(ts[i], ds[i]) by {
            if k < prefix.len() {
                assert(spec_nearby(ts, ds)[k] == prefix[k]);
                let i = choose|i: int|
                    0 <= i < ts.drop_last().len() && #[trigger] prefix[k] == ts.drop_last()[i]
                        && spec_todo_nearby(ts.drop_last()[i], ds[i]);
                assert(ts.drop_last()[i] == ts[i]);
                assert(spec_nearby(ts, ds)[k] == ts[i] && spec_todo_nearby(ts[i], ds[i]));
            } else {
                let i = ts.len() - 1;
                assert(spec_nearby(ts, ds)[k] == ts[i] && spec_todo_nearby(ts[i], ds[i]));
            }
        }
    }
}

/// Law: a completed todo never appears in the nearby result, whatever its
/// zones and distances.
pub proof fn lemma_nearby_excludes_completed(ts: Seq<TodoView>, ds: Seq<Seq<u64>>)
    ensures
        forall|k: int|
            0 <= k < spec_nearby(ts, ds).len() ==> !(#[trigger] spec_nearby(ts, ds)[k]).completed,
{
    lemma_nearby_elements(ts, ds);
}

/// Law: a todo with no trigger zones never appears in the nearby result,
/// whatever the query point.
pub proof fn lemma_nearby_excludes_zoneless(ts: Seq<TodoView>, ds: Seq<Seq<u64>>)
    ensures
        forall|k: int|
            0 <= k < spec_nearby(ts, ds).len() ==> (#[trigger] spec_nearby(
                ts,
                ds,
            )[k]).zones().len() > 0,
{
    lemma_nearby_elements(ts, ds);
}

/// Law: an incomplete todo with at least one matching zone is in the
/// nearby result, even if its other zones are far away.
pub proof fn lemma_nearby_includes(ts: Seq<TodoView>, ds: Seq<Seq<u64>>, i: int)
    requires
        0 <= i < ts.len(),
        spec_todo_nearby(ts[i], ds[i]),
    ensures
        spec_nearby(ts, ds).contains(ts[i]),
    decreases ts.len(),
{
    let prefix = spec_nearby(ts.drop_last(), ds);
    if i == ts.len() - 1 {
        assert(spec_nearby(ts, ds)[prefix.len() as int] == ts[i]);
    } else {
        assert(ts.drop_last()[i] == ts[i]);
        lemma_nearby_includes(ts.drop_last(), ds, i);
        let k = choose|k: int| 0 <= k < prefix.len() && prefix[k] == ts[i];
        assert(spec_nearby(ts, ds)[k] == ts[i]);
    }
}

/// Law: when the input todos carry pairwise distinct identifiers, so does
/// the nearby result: a todo several of whose zones match is reported
/// once, not twice.
pub proof fn lemma_nearby_distinct_ids(ts: Seq<TodoView>, ds: Seq<Seq<u64>>)
    requires
        forall|i: int, j: int| 0 <= i < j < ts.len() ==> ts[i].id != ts[j].id,
    ensures
        forall|i: int, j: int|
            0 <= i < j < spec_nearby(ts, ds).len() ==> spec_nearby(ts, ds)[i].id != spec_nearby(
                ts,
                ds,
            )[j].id,
    decreases ts.len(),
{
    if ts.len() > 0 {
        let prefix = spec_nearby(ts.drop_last(), ds);
        lemma_nearby_distinct_ids(ts.drop_last(), ds);
        lemma_nearby_elements(ts.drop_last(), ds);
        assert forall|i: int, j: int|
            0 <= i < j < spec_nearby(ts, ds).len() implies spec_nearby(ts, ds)[i].id
            != spec_nearby(ts, ds)[j].id by {
            if j < prefix.len() {
                assert(spec_nearby(ts, ds)[i] == prefix[i] && spec_nearby(ts, ds)[j] == prefix[j]);
            } else {
                assert(spec_nearby(ts, ds)[i] == prefix[i]);
                assert(spec_nearby(ts, ds)[j] == ts.last());
                let w = choose|w: int|
                    0 <= w < ts.drop_last().len() && #[trigger] prefix[i] == ts.drop_last()[w]
                        && spec_todo_nearby(ts.drop_last()[w], ds[w]);
                assert(ts[w].id != ts[ts.len() - 1].id);
            }
        }
    }
}

/// Law: a zone whose measured distance is exactly its radius matches; the
/// boundary is included. An incomplete todo with such a zone is nearby.
pub proof fn lemma_boundary_match(t: TodoView, ds: Seq<u64>, j: int)
    requires
        !t.completed,
        0 <= j < t.zones().len(),
        j < ds.len(),
        ds[j] == t.zones()[j].radius_mm,
    ensures
        spec_todo_nearby(t, ds),
{
    assert(spec_zone_within(ds[j], t.zones()[j]));
}

} // verus!
