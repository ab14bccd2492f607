//! The ingestion handler: one request from its payload to its response.
//!
//! The handler fingerprints the payload, sniffs its container and extracts
//! the manifest; then it needs the disk twice, for a look at the entry's
//! path and for the write. Each such action is handed to the caller as a
//! `Step`; the caller performs it and reports back what happened.

use crate::extract::{
    extract, extracted_view, extraction, unsupported_type_text, ExtractionError,
};
use crate::fingerprint::{fingerprint, is_fingerprint, sha256_hex};
use crate::sniff::{container_tag, detect_image_format, guessed_format_name, head_of};
use crate::store::{
    entry_path, entry_path_of, file_stem, lemma_entry_path_names_key, plan_for, plan_put,
    settle_put, write_outcome, PathProbe, PutOutcome, PutPlan,
};
use vstd::prelude::*;

verus! {

/// Status of a response that reports success.
pub const STATUS_OK: u16 = 200;

/// Status of a response that reports failure.
pub const STATUS_SERVER_ERROR: u16 = 500;

/// The state in which a request ends.
#[derive(Debug, Clone, PartialEq, Eq)]
pub enum Terminal {
    /// The manifest was written as a new entry.
    Stored,
    /// An entry for this payload was there already.
    Duplicate,
    /// No manifest could be extracted; the text is the extractor's.
    NoManifest(String),
    /// The entry's path is taken by something that is no usable file.
    StoreConflict,
    /// Writing the entry failed.
    StoreIoError,
}

/// A terminal state over plain text.
pub enum TerminalView {
    Stored,
    Duplicate,
    NoManifest(Seq<char>),
    StoreConflict,
    StoreIoError,
}

impl View for Terminal {
    type V = TerminalView;

    open spec fn view(&self) -> TerminalView {
        match self {
            Terminal::Stored => TerminalView::Stored,
            Terminal::Duplicate => TerminalView::Duplicate,
            Terminal::NoManifest(text) => TerminalView::NoManifest(text@),
            Terminal::StoreConflict => TerminalView::StoreConflict,
            Terminal::StoreIoError => TerminalView::StoreIoError,
        }
    }
}

/// What is sent back: a status code and a plain-text body.
#[derive(Debug, Clone, PartialEq, Eq)]
pub struct Response {
    pub status: u16,
    pub body: String,
}

/// A response over plain text.
pub struct ResponseView {
    pub status: u16,
    pub body: Seq<char>,
}

impl View for Response {
    type V = ResponseView;

    open spec fn view(&self) -> ResponseView {
        ResponseView { status: self.status, body: self.body@ }
    }
}

/// A manifest on its way into the store.
#[derive(Debug, Clone, PartialEq, Eq)]
pub struct Pending {
    /// The fingerprint of the payload: the key of the entry.
    pub key: String,
    /// The path of the entry.
    pub path: String,
    /// The manifest to store.
    pub manifest: Vec<u8>,
}

/// A pending manifest over plain values.
pub struct PendingView {
    pub key: Seq<char>,
    pub path: Seq<char>,
    pub manifest: Seq<u8>,
}

impl View for Pending {
    type V = PendingView;

    open spec fn view(&self) -> PendingView {
        PendingView { key: self.key@, path: self.path@, manifest: self.manifest@ }
    }
}

/// Where a request stands, and what it asks of the caller.
#[derive(Debug, Clone, PartialEq, Eq)]
pub enum Step {
    /// Look at the path and report with `after_probe`.
    Probe(Pending),
    /// Write the manifest to the path and report with `after_write`.
    Write(Pending),
    /// The request has ended.
    Done(Terminal),
}

/// A step over plain values.
pub enum StepView {
    Probe(PendingView),
    Write(PendingView),
    Done(TerminalView),
}

impl View for Step {
    type V = StepView;

    open spec fn view(&self) -> StepView {
        match self {
            Step::Probe(pending) => StepView::Probe(pending@),
            Step::Write(pending) => StepView::Write(pending@),
            Step::Done(terminal) => StepView::Done(terminal@),
        }
    }
}

/// The response that a terminal state is answered with.
pub open spec fn response_of(terminal: TerminalView) -> ResponseView {
    match terminal {
        TerminalView::Stored => ResponseView {
            status: STATUS_OK,
            body: "Image received and processed successfully!"@,
        },
        TerminalView::Duplicate => ResponseView { status: STATUS_OK, body: "OK"@ },
        TerminalView::NoManifest(text) => ResponseView { status: STATUS_SERVER_ERROR, body: text },
        TerminalView::StoreConflict => ResponseView {
            status: STATUS_SERVER_ERROR,
            body: "Failed to store the C2PA Manifest."@,
        },
        TerminalView::StoreIoError => ResponseView {
            status: STATUS_SERVER_ERROR,
            body: "Internal Server Error"@,
        },
    }
}

/// The terminal state that the outcome of a store operation leads to.
pub open spec fn terminal_of(outcome: PutOutcome) -> TerminalView {
    match outcome {
        PutOutcome::Written => TerminalView::Stored,
        PutOutcome::AlreadyPresent => TerminalView::Duplicate,
        PutOutcome::Conflict => TerminalView::StoreConflict,
        PutOutcome::IoError => TerminalView::StoreIoError,
    }
}

/// The step that follows extraction: a manifest is due for the look at its
/// path, a failure ends the request.
pub open spec fn step_after_extraction(
    store_dir: Seq<char>,
    key: Seq<char>,
    extracted: Result<Seq<u8>, Seq<char>>,
) -> StepView {
    match extracted {
        Ok(manifest) => StepView::Probe(
            PendingView { key, path: entry_path(store_dir, key), manifest },
        ),
        Err(text) => StepView::Done(TerminalView::NoManifest(text)),
    }
}

/// The first step of a request: the payload is fingerprinted, its container
/// sniffed and its manifest extracted, in this order and whatever the store
/// holds.
pub open spec fn first_step(store_dir: Seq<char>, payload: Seq<u8>) -> StepView {
    step_after_extraction(
        store_dir,
        sha256_hex(payload),
        extraction(container_tag(payload), payload),
    )
}

/// The step that follows the look at the path.
pub open spec fn step_after_probe(pending: PendingView, probe: PathProbe) -> StepView {
    match plan_for(probe) {
        PutPlan::Settled(outcome) => StepView::Done(terminal_of(outcome)),
        PutPlan::Write => StepView::Write(pending),
    }
}

/// The step that follows the write.
pub open spec fn step_after_write(written: bool) -> StepView {
    StepView::Done(terminal_of(write_outcome(written)))
}

/// Maps a terminal state to its response.
pub fn response_for(terminal: &Terminal) -> (response: Response)
    ensures
        response@ == response_of(terminal@),
{
    match terminal {
        Terminal::Stored => Response {
            status: STATUS_OK,
            body: "Image received and processed successfully!".to_owned(),
        },
        Terminal::Duplicate => Response { status: STATUS_OK, body: "OK".to_owned() },
        Terminal::NoManifest(text) => Response { status: STATUS_SERVER_ERROR, body: text.clone() },
        Terminal::StoreConflict => Response {
            status: STATUS_SERVER_ERROR,
            body: "Failed to store the C2PA Manifest.".to_owned(),
        },
        Terminal::StoreIoError => Response {
            status: STATUS_SERVER_ERROR,
            body: "Internal Server Error".to_owned(),
        },
    }
}

/// Maps the outcome of a store operation to a terminal state.
pub fn terminal_for(outcome: PutOutcome) -> (terminal: Terminal)
    ensures
        terminal@ == terminal_of(outcome),
{
    match outcome {
        PutOutcome::Written => Terminal::Stored,
        PutOutcome::AlreadyPresent => Terminal::Duplicate,
        PutOutcome::Conflict => Terminal::StoreConflict,
        PutOutcome::IoError => Terminal::StoreIoError,
    }
}

/// Takes the request on from what extraction gave: a manifest is made
/// pending under the path of `key`, a failure ends the request with the
/// extractor's text.
pub fn after_extraction(
    store_dir: &str,
    key: String,
    extracted: Result<Vec<u8>, ExtractionError>,
) -> (step: Step)
    ensures
        step@ == step_after_extraction(store_dir@, key@, extracted_view(extracted)),
{
    match extracted {
        Ok(manifest) => {
            let path = entry_path_of(store_dir, key.as_str());
            Step::Probe(Pending { key, path, manifest })
        },
        Err(e) => Step::Done(Terminal::NoManifest(e.message)),
    }
}

/// Starts a request. The result is fixed by the store directory's name and
/// the payload. A payload whose leading bytes show no known container ends
/// at once without a manifest. A manifest that was found is pending under
/// the payload's fingerprint, and the stem of its file name is that
/// fingerprint.
pub fn begin(store_dir: &str, payload: &[u8]) -> (step: Step)
    ensures
        step@ == first_step(store_dir@, payload@),
        guessed_format_name(head_of(payload@)) is None ==> step@ == StepView::Done(
            TerminalView::NoManifest(unsupported_type_text()),
        ),
        !(step@ is Write),
        step@ matches StepView::Done(terminal) ==> terminal is NoManifest,
        step@ matches StepView::Probe(pending) ==> {
            &&& pending.key == sha256_hex(payload@)
            &&& is_fingerprint(pending.key)
            &&& pending.path == entry_path(store_dir@, pending.key)
            &&& file_stem(pending.path) == sha256_hex(payload@)
            &&& pending.manifest.len() > 0
        },
{
    let key = fingerprint(payload);
    let tag = detect_image_format(payload);
    let extracted = extract(tag.as_str(), payload);
    proof {
        lemma_entry_path_names_key(store_dir@, key@);
    }
    after_extraction(store_dir, key, extracted)
}

/// Takes the request on from the look at the path: an existing file ends it
/// as a duplicate, anything else in the way as a conflict, and a free path
/// calls for the write of the same manifest to the same path.
pub fn after_probe(pending: Pending, probe: PathProbe) -> (step: Step)
    ensures
        step@ == step_after_probe(pending@, probe),
{
    match plan_put(probe) {
        PutPlan::Settled(outcome) => Step::Done(terminal_for(outcome)),
        PutPlan::Write => Step::Write(pending),
    }
}

/// Ends the request after the write: stored where it succeeded, a store
/// fault where it did not.
pub fn after_write(written: bool) -> (step: Step)
    ensures
        step@ == step_after_write(written),
{
    Step::Done(terminal_for(settle_put(written)))
}

} // verus!
