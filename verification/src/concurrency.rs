//! Requests in parallel. Any number of requests for one payload are in
//! flight over one directory; a schedule picks, move by move, whose next
//! step the caller performs. Looks and writes are the only points at which
//! requests meet, and each is performed in one piece.

use crate::fingerprint::sha256_hex;
use crate::guarantees::{answered, has_manifest, manifest_of, path_of, tick, usable};
use crate::handler::{first_step, PendingView, StepView, STATUS_OK};
use crate::store::{Directory, Slot};
use vstd::prelude::*;

verus! {

/// One move of a schedule: the request whose step is performed, and whether
/// the write succeeds if the step is one.
pub struct Move {
    pub who: int,
    pub written: bool,
}

/// The directory and the requests in flight over it.
pub struct System {
    pub dir: Directory,
    pub requests: Seq<StepView>,
}

/// `count` requests for `payload`, each at its first step, over `dir`.
pub open spec fn launch(
    dir: Directory,
    store_dir: Seq<char>,
    payload: Seq<u8>,
    count: nat,
) -> System {
    System { dir, requests: Seq::new(count, |i: int| first_step(store_dir, payload)) }
}

/// The system after one move. A move that names no request changes nothing.
pub open spec fn advance(system: System, m: Move) -> System {
    if 0 <= m.who < system.requests.len() {
        let next = tick(system.dir, system.requests[m.who], m.written);
        System { dir: next.0, requests: system.requests.update(m.who, next.1) }
    } else {
        system
    }
}

/// The system after a whole schedule, first move first.
pub open spec fn run(system: System, schedule: Seq<Move>) -> System
    decreases schedule.len(),
{
    if schedule.len() == 0 {
        system
    } else {
        advance(run(system, schedule.drop_last()), schedule.last())
    }
}

/// Every request has ended.
pub open spec fn all_done(system: System) -> bool {
    forall|i: int| 0 <= i < system.requests.len() ==> (#[trigger] system.requests[i]) is Done
}

/// No write of the schedule fails.
pub open spec fn writes_succeed(schedule: Seq<Move>) -> bool {
    forall|i: int| 0 <= i < schedule.len() ==> (#[trigger] schedule[i]).written
}

/// What the payload's path holds once any request for it has got through:
/// the file that was there before, or else the payload's manifest.
pub open spec fn settled_slot(dir: Directory, store_dir: Seq<char>, payload: Seq<u8>) -> Slot {
    if dir.dom().contains(path_of(store_dir, payload)) {
        dir[path_of(store_dir, payload)]
    } else {
        Slot::File(manifest_of(payload))
    }
}

/// The manifest of the payload, pending under the payload's path.
pub open spec fn pending_of(store_dir: Seq<char>, payload: Seq<u8>) -> PendingView {
    PendingView {
        key: sha256_hex(payload),
        path: path_of(store_dir, payload),
        manifest: manifest_of(payload),
    }
}

/// What holds of the system at every point of every run: a request that
/// has not ended is about to look, or about to write the payload's manifest
/// to the payload's path; no path but the payload's has changed; the
/// payload's path is free or settled, and was not taken from what lay there
/// first; a write is due only where the path was free at first; and once a
/// request has ended as stored or as a duplicate, the path is settled.
pub open spec fn in_step(
    system: System,
    start: Directory,
    store_dir: Seq<char>,
    payload: Seq<u8>,
    count: nat,
) -> bool {
    let path = path_of(store_dir, payload);
    &&& system.requests.len() == count
    &&& system.dir.remove(path) == start.remove(path)
    &&& start.dom().contains(path) ==> system.dir.dom().contains(path)
    &&& system.dir.dom().contains(path) ==> system.dir[path] == settled_slot(
        start,
        store_dir,
        payload,
    )
    &&& forall|i: int|
        0 <= i < count ==> {
            let step = #[trigger] system.requests[i];
            &&& step is Probe ==> step == StepView::Probe(pending_of(store_dir, payload))
            &&& step is Write ==> step == StepView::Write(pending_of(store_dir, payload))
                && !start.dom().contains(path)
            &&& step is Done && (step->Done_0 is Stored || step->Done_0 is Duplicate)
                ==> system.dir.dom().contains(path)
        }
}

/// Every request that has ended has ended well: as stored or as a
/// duplicate.
pub open spec fn ended_well(system: System) -> bool {
    forall|i: int|
        0 <= i < system.requests.len() ==> {
            let step = #[trigger] system.requests[i];
            step is Done ==> step->Done_0 is Stored || step->Done_0 is Duplicate
        }
}

/// One move keeps the system in step.
proof fn lemma_advance_in_step(
    system: System,
    m: Move,
    start: Directory,
    store_dir: Seq<char>,
    payload: Seq<u8>,
    count: nat,
)
    requires
        in_step(system, start, store_dir, payload, count),
    ensures
        in_step(advance(system, m), start, store_dir, payload, count),
{
    let path = path_of(store_dir, payload);
    let after = advance(system, m);
    if 0 <= m.who < system.requests.len() {
        let step = system.requests[m.who];
        assert(after.dir.remove(path) =~= start.remove(path)) by {
            assert(system.dir.remove(path) == start.remove(path));
            if step is Write && m.written {
                assert(after.dir =~= system.dir.insert(path, Slot::File(manifest_of(payload))));
                assert(after.dir.remove(path) =~= system.dir.remove(path));
            }
        }
        assert forall|i: int| 0 <= i < count implies {
            let s = #[trigger] after.requests[i];
            &&& s is Probe ==> s == StepView::Probe(pending_of(store_dir, payload))
            &&& s is Write ==> s == StepView::Write(pending_of(store_dir, payload))
                && !start.dom().contains(path)
            &&& s is Done && (s->Done_0 is Stored || s->Done_0 is Duplicate)
                ==> after.dir.dom().contains(path)
        } by {
            let before = system.requests[i];
            if i != m.who {
                assert(after.requests[i] == before);
            }
        }
    }
}

/// Every run keeps the system in step.
pub proof fn lemma_run_in_step(
    start: Directory,
    store_dir: Seq<char>,
    payload: Seq<u8>,
    count: nat,
    schedule: Seq<Move>,
)
    ensures
        in_step(
            run(launch(start, store_dir, payload, count), schedule),
            start,
            store_dir,
            payload,
            count,
        ),
    decreases schedule.len(),
{
    let path = path_of(store_dir, payload);
    if schedule.len() == 0 {
        let system = launch(start, store_dir, payload, count);
        assert(system.dir.remove(path) =~= start.remove(path));
    } else {
        let earlier = schedule.drop_last();
        lemma_run_in_step(start, store_dir, payload, count, earlier);
        lemma_advance_in_step(
            run(launch(start, store_dir, payload, count), earlier),
            schedule.last(),
            start,
            store_dir,
            payload,
            count,
        );
    }
}

/// Where the payload has a manifest, nothing but a file is in the way and no
/// write fails, every request that ends in a run ends well.
pub proof fn lemma_run_ends_well(
    start: Directory,
    store_dir: Seq<char>,
    payload: Seq<u8>,
    count: nat,
    schedule: Seq<Move>,
)
    requires
        has_manifest(payload),
        usable(start, path_of(store_dir, payload)),
        writes_succeed(schedule),
    ensures
        ended_well(run(launch(start, store_dir, payload, count), schedule)),
    decreases schedule.len(),
{
    if schedule.len() > 0 {
        let earlier = schedule.drop_last();
        assert forall|i: int| 0 <= i < earlier.len() implies (#[trigger] earlier[i]).written by {
            assert(earlier[i] == schedule[i]);
        }
        lemma_run_ends_well(start, store_dir, payload, count, earlier);
        lemma_run_in_step(start, store_dir, payload, count, earlier);
        let before = run(launch(start, store_dir, payload, count), earlier);
        let m = schedule.last();
        let after = advance(before, m);
        assert(m.written);
        assert forall|i: int| 0 <= i < after.requests.len() implies {
            let s = #[trigger] after.requests[i];
            s is Done ==> s->Done_0 is Stored || s->Done_0 is Duplicate
        } by {
            if i != m.who {
                assert(after.requests[i] == before.requests[i]);
            }
        }
    }
}

/// Concurrent deduplication: let `count` requests, at least one, for one
/// payload with a manifest run in any interleaving over a store whose path
/// for the payload is free or holds a file, and let no write fail. Once all
/// have ended, every one of them is answered with 200, and the store holds
/// exactly one file for the payload: the file that was there before, or
/// else the payload's manifest. Nothing else in the store has changed.
pub proof fn lemma_concurrent_dedup(
    start: Directory,
    store_dir: Seq<char>,
    payload: Seq<u8>,
    count: nat,
    schedule: Seq<Move>,
)
    requires
        count >= 1,
        has_manifest(payload),
        usable(start, path_of(store_dir, payload)),
        writes_succeed(schedule),
        all_done(run(launch(start, store_dir, payload, count), schedule)),
    ensures
        ({
            let end = run(launch(start, store_dir, payload, count), schedule);
            let path = path_of(store_dir, payload);
            &&& end.requests.len() == count
            &&& forall|i: int| 0 <= i < count ==> answered(#[trigger] end.requests[i], STATUS_OK)
            &&& end.dir.dom() == start.dom().insert(path)
            &&& end.dir[path] is File
            &&& end.dir[path] == settled_slot(start, store_dir, payload)
            &&& end.dir.remove(path) == start.remove(path)
        }),
{
    let end = run(launch(start, store_dir, payload, count), schedule);
    let path = path_of(store_dir, payload);
    lemma_run_in_step(start, store_dir, payload, count, schedule);
    lemma_run_ends_well(start, store_dir, payload, count, schedule);
    assert(end.requests[0] is Done);
    assert(end.dir.dom().contains(path));
    assert(end.dir.dom() =~= start.dom().insert(path)) by {
        assert forall|k: Seq<char>| end.dir.dom().contains(k) <==> start.dom().insert(
            path,
        ).contains(k) by {
            if k != path {
                assert(end.dir.remove(path).dom().contains(k) == end.dir.dom().contains(k));
                assert(start.remove(path).dom().contains(k) == start.dom().contains(k));
            }
        }
    }
    assert forall|i: int| 0 <= i < count implies answered(
        #[trigger] end.requests[i],
        STATUS_OK,
    ) by {
        assert(end.requests[i] is Done);
    }
}

/// Write-once under any interleaving: whatever lies at a path after the
/// first `cut` moves of a schedule lies there unchanged after all of them,
/// whether writes fail or not. With `cut` at 0 this speaks of what the store
/// held when the requests were launched; with `cut` behind a write, of the
/// file that the write left.
pub proof fn lemma_entries_persist(
    start: Directory,
    store_dir: Seq<char>,
    payload: Seq<u8>,
    count: nat,
    schedule: Seq<Move>,
    cut: int,
    path: Seq<char>,
)
    requires
        0 <= cut <= schedule.len(),
        run(launch(start, store_dir, payload, count), schedule.take(cut)).dir.dom().contains(path),
    ensures
        run(launch(start, store_dir, payload, count), schedule).dir.dom().contains(path),
        run(launch(start, store_dir, payload, count), schedule).dir[path] == run(
            launch(start, store_dir, payload, count),
            schedule.take(cut),
        ).dir[path],
    decreases schedule.len() - cut,
{
    if cut == schedule.len() {
        assert(schedule.take(cut) =~= schedule);
    } else {
        let earlier = schedule.drop_last();
        assert(earlier.take(cut) =~= schedule.take(cut));
        lemma_entries_persist(start, store_dir, payload, count, earlier, cut, path);
        lemma_run_in_step(start, store_dir, payload, count, earlier);
        let before = run(launch(start, store_dir, payload, count), earlier);
        let m = schedule.last();
        if 0 <= m.who < before.requests.len() {
            let step = before.requests[m.who];
            if step is Write {
                assert(step == StepView::Write(pending_of(store_dir, payload)));
            }
        }
    }
}

} // verus!
