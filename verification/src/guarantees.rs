//! What the handler guarantees of the store, proved over a model in which
//! the caller performs each step on a `Directory`: alone, one request after
//! the other, and with any number of requests for one payload interleaved.

use crate::extract::extraction;
use crate::fingerprint::{is_fingerprint, sha256_hex};
use crate::handler::{
    first_step, response_of, step_after_probe, step_after_write, terminal_of, PendingView,
    StepView, TerminalView, STATUS_OK, STATUS_SERVER_ERROR,
};
use crate::sniff::{container_tag, guessed_format_name, head_of};
use crate::store::{
    dir_after_write, entry_path, file_stem, lemma_entry_path_names_key, probe_of,
    put_if_absent, Directory, PathProbe, Slot,
};
use vstd::prelude::*;

verus! {

/// The caller's part in one step: the look at the path or the write is
/// performed on `dir` in one piece and reported to the handler. `written`
/// says whether a write, if this step is one, succeeds. A request that has
/// ended stays as it is.
pub open spec fn tick(dir: Directory, step: StepView, written: bool) -> (Directory, StepView) {
    match step {
        StepView::Probe(pending) => (dir, step_after_probe(pending, probe_of(dir, pending.path))),
        StepView::Write(pending) => (
            dir_after_write(dir, pending.path, pending.manifest, written),
            step_after_write(written),
        ),
        StepView::Done(_) => (dir, step),
    }
}

/// One request served from start to end with nothing in between: the first
/// step, then the look at the path, then the write where one is due.
pub open spec fn serve(
    dir: Directory,
    store_dir: Seq<char>,
    payload: Seq<u8>,
    written: bool,
) -> (Directory, StepView) {
    let looked = tick(dir, first_step(store_dir, payload), written);
    tick(looked.0, looked.1, written)
}

/// The request has ended and is answered with `status`.
pub open spec fn answered(step: StepView, status: u16) -> bool {
    step matches StepView::Done(terminal) && response_of(terminal).status == status
}

/// The path under which the manifest of `payload` is kept.
pub open spec fn path_of(store_dir: Seq<char>, payload: Seq<u8>) -> Seq<char> {
    entry_path(store_dir, sha256_hex(payload))
}

/// The payload carries a manifest that the extractor finds.
pub open spec fn has_manifest(payload: Seq<u8>) -> bool {
    extraction(container_tag(payload), payload) is Ok
}

/// The manifest of a payload that has one.
pub open spec fn manifest_of(payload: Seq<u8>) -> Seq<u8> {
    extraction(container_tag(payload), payload)->Ok_0
}

/// Nothing but a regular file is in the way at `path`.
pub open spec fn usable(dir: Directory, path: Seq<char>) -> bool {
    probe_of(dir, path) == PathProbe::Absent || probe_of(dir, path) == PathProbe::RegularFile
}

/// A look followed by what it calls for is one store operation: the
/// directory is left as `put_if_absent` leaves it, and the request ends in
/// the terminal state of that operation's outcome.
pub proof fn lemma_look_then_write_is_put(dir: Directory, pending: PendingView, written: bool)
    ensures
        ({
            let looked = tick(dir, StepView::Probe(pending), written);
            let ended = tick(looked.0, looked.1, written);
            let put = put_if_absent(dir, pending.path, pending.manifest, written);
            &&& ended.0 == put.0
            &&& ended.1 == StepView::Done(terminal_of(put.1))
        }),
{
}

/// Every request ends, and is answered with 200 or with 500.
pub proof fn lemma_serve_ends(
    dir: Directory,
    store_dir: Seq<char>,
    payload: Seq<u8>,
    written: bool,
)
    ensures
        serve(dir, store_dir, payload, written).1 is Done,
        answered(serve(dir, store_dir, payload, written).1, STATUS_OK) || answered(
            serve(dir, store_dir, payload, written).1,
            STATUS_SERVER_ERROR,
        ),
{
}

/// Two moves of its own end a request, whatever became of the directory in
/// between and whether the write succeeds.
pub proof fn lemma_two_moves_end(
    store_dir: Seq<char>,
    payload: Seq<u8>,
    first_dir: Directory,
    second_dir: Directory,
    first_written: bool,
    second_written: bool,
)
    ensures
        tick(
            second_dir,
            tick(first_dir, first_step(store_dir, payload), first_written).1,
            second_written,
        ).1 is Done,
{
}

/// A request is answered with 200 exactly when its payload has a manifest
/// and the entry was there already or was written now.
pub proof fn lemma_success(dir: Directory, store_dir: Seq<char>, payload: Seq<u8>, written: bool)
    ensures
        answered(serve(dir, store_dir, payload, written).1, STATUS_OK) <==> has_manifest(payload)
            && (probe_of(dir, path_of(store_dir, payload)) == PathProbe::RegularFile || (probe_of(
            dir,
            path_of(store_dir, payload),
        ) == PathProbe::Absent && written)),
{
}

/// Idempotence: a payload with a manifest, sent twice in a row to a store
/// whose path for it is free or holds a file, is answered with 200 both
/// times, provided the first write succeeds. Afterwards the store holds one
/// file under the payload's path, everything else in it is as before, and
/// the second request changed nothing and ended as a duplicate.
pub proof fn lemma_idempotent(
    dir: Directory,
    store_dir: Seq<char>,
    payload: Seq<u8>,
    written_again: bool,
)
    requires
        has_manifest(payload),
        usable(dir, path_of(store_dir, payload)),
    ensures
        ({
            let first = serve(dir, store_dir, payload, true);
            let second = serve(first.0, store_dir, payload, written_again);
            let path = path_of(store_dir, payload);
            &&& answered(first.1, STATUS_OK)
            &&& answered(second.1, STATUS_OK)
            &&& second.1 == StepView::Done(TerminalView::Duplicate)
            &&& second.0 == first.0
            &&& first.0.dom() == dir.dom().insert(path)
            &&& first.0[path] is File
            &&& first.0.remove(path) == dir.remove(path)
        }),
{
    let first = serve(dir, store_dir, payload, true);
    let path = path_of(store_dir, payload);
    assert(first.0.dom() =~= dir.dom().insert(path));
    assert(first.0.remove(path) =~= dir.remove(path));
}

/// Content addressing: where a request ends as stored, the path was free,
/// the store has gained the payload's manifest under the path that the
/// payload's fingerprint names, and nothing else has changed. The stem of
/// the new file's name is the lowercase SHA-256 of the payload.
pub proof fn lemma_content_addressed(
    dir: Directory,
    store_dir: Seq<char>,
    payload: Seq<u8>,
    written: bool,
)
    requires
        is_fingerprint(sha256_hex(payload)),
        serve(dir, store_dir, payload, written).1 == StepView::Done(TerminalView::Stored),
    ensures
        has_manifest(payload),
        !dir.dom().contains(path_of(store_dir, payload)),
        serve(dir, store_dir, payload, written).0 == dir.insert(
            path_of(store_dir, payload),
            Slot::File(manifest_of(payload)),
        ),
        file_stem(path_of(store_dir, payload)) == sha256_hex(payload),
{
    lemma_entry_path_names_key(store_dir, sha256_hex(payload));
}

/// Rejection by format: a payload whose leading bytes show no known
/// container is answered with 500, and the store stays as it is.
pub proof fn lemma_unrecognised_rejected(
    dir: Directory,
    store_dir: Seq<char>,
    payload: Seq<u8>,
    written: bool,
)
    requires
        guessed_format_name(head_of(payload)) is None,
    ensures
        serve(dir, store_dir, payload, written).0 == dir,
        serve(dir, store_dir, payload, written).1 is Done,
        serve(dir, store_dir, payload, written).1->Done_0 is NoManifest,
        answered(serve(dir, store_dir, payload, written).1, STATUS_SERVER_ERROR),
{
}

/// A request that is answered with 500 leaves the store as it is.
pub proof fn lemma_failure_changes_nothing(
    dir: Directory,
    store_dir: Seq<char>,
    payload: Seq<u8>,
    written: bool,
)
    requires
        answered(serve(dir, store_dir, payload, written).1, STATUS_SERVER_ERROR),
    ensures
        serve(dir, store_dir, payload, written).0 == dir,
{
}

/// Write-once: whatever lies at a path before a request lies there
/// afterwards, unchanged. In particular no request overwrites a file,
/// whether it is the entry of its own payload or of another.
pub proof fn lemma_write_once(
    dir: Directory,
    store_dir: Seq<char>,
    payload: Seq<u8>,
    written: bool,
    path: Seq<char>,
)
    requires
        dir.dom().contains(path),
    ensures
        serve(dir, store_dir, payload, written).0.dom().contains(path),
        serve(dir, store_dir, payload, written).0[path] == dir[path],
{
}

} // verus!
