//! Manifest extraction: the embedded C2PA manifest store of a payload, as
//! the `c2pa` crate finds it for a given container tag.

use crate::container::{is_walkable, walkable};
use vstd::prelude::*;

verus! {

/// What `c2pa::jumbf_io::load_jumbf_from_memory` makes of a payload under a
/// container tag: the JUMBF block it found, or the text of its error.
pub uninterp spec fn embedded_manifest(tag: Seq<char>, payload: Seq<u8>) -> Result<
    Seq<u8>,
    Seq<char>,
>;

/// The error text for a tag that no container handler answers to.
pub open spec fn unsupported_type_text() -> Seq<char> {
    "type is unsupported"@
}

/// The failure with which the extractor answers a tag that it does not know.
pub open spec fn is_unsupported(r: Result<Seq<u8>, Seq<char>>) -> bool {
    r == Err::<Seq<u8>, Seq<char>>(unsupported_type_text())
}

/// The error text for a payload that the extractor is not handed: one that
/// is not walkable under its tag.
pub open spec fn malformed_text() -> Seq<char> {
    "asset could not be parsed: container structure is malformed"@
}

/// The outcome of extraction. An empty tag names no container, so it always
/// fails with the extractor's "unsupported type" error. A payload that is
/// not walkable under its tag fails without the extractor being asked. Any
/// other case is the extractor's business.
pub open spec fn extraction(tag: Seq<char>, payload: Seq<u8>) -> Result<Seq<u8>, Seq<char>> {
    if tag.len() == 0 {
        Err(unsupported_type_text())
    } else if !walkable(tag, payload) {
        Err(malformed_text())
    } else {
        embedded_manifest(tag, payload)
    }
}

/// Extraction failed: the payload carries no manifest that could be read.
/// The unknown container, the absent manifest and the malformed one are not
/// told apart; `message` is the extractor's own wording wherever the
/// extractor was asked.
#[derive(Debug, Clone, PartialEq, Eq)]
pub struct ExtractionError {
    pub message: String,
}

impl View for ExtractionError {
    type V = Seq<char>;

    open spec fn view(&self) -> Seq<char> {
        self.message@
    }
}

/// View of what the extractor handed back.
pub open spec fn loaded_view(loaded: Result<Vec<u8>, String>) -> Result<Seq<u8>, Seq<char>> {
    match loaded {
        Ok(blob) => Ok(blob@),
        Err(text) => Err(text@),
    }
}

/// View of an extraction result.
pub open spec fn extracted_view(r: Result<Vec<u8>, ExtractionError>) -> Result<
    Seq<u8>,
    Seq<char>,
> {
    match r {
        Ok(blob) => Ok(blob@),
        Err(e) => Err(e@),
    }
}

/// Calls `c2pa::jumbf_io::load_jumbf_from_memory`; an error is handed on as
/// the text that its `Display` gives. The crate lowercases the tag and looks
/// it up among the types its asset handlers list, none of which is empty: an
/// empty tag is answered with its "unsupported type" error. A block that it
/// returns is never empty. The call reads nothing but its two arguments.
///
/// Its TIFF reader follows the chain of directories until one names no
/// successor, and makes room for as many sub-directories as an entry
/// declares. Its BMFF reader adds each box's size to its position, and
/// takes the lengths of what it reads off the sizes of XMP and manifest
/// boxes. The call is made only on payloads that are walkable under the
/// tag: there every such walk ends and every such sum stays in range.
#[verifier::external_body]
fn load_jumbf(tag: &str, payload: &[u8]) -> (loaded: Result<Vec<u8>, String>)
    requires
        walkable(tag@, payload@),
    ensures
        tag@.len() != 0 ==> loaded_view(loaded) == embedded_manifest(tag@, payload@),
        tag@.len() == 0 ==> is_unsupported(loaded_view(loaded)),
        loaded matches Ok(blob) ==> blob@.len() > 0,
{
    match c2pa::jumbf_io::load_jumbf_from_memory(tag, payload) {
        Ok(blob) => Ok(blob),
        Err(e) => Err(e.to_string()),
    }
}

/// Wraps what the extractor handed back: a block stays a block, an error
/// text becomes the one `ExtractionError`.
pub fn extracted_from(loaded: Result<Vec<u8>, String>) -> (r: Result<Vec<u8>, ExtractionError>)
    ensures
        extracted_view(r) == loaded_view(loaded),
{
    match loaded {
        Ok(blob) => Ok(blob),
        Err(message) => Err(ExtractionError { message }),
    }
}

/// Extracts the manifest store embedded in `payload`, read as the container
/// that `tag` names. It fails on the empty tag, and on a payload that is not
/// walkable under the tag, whose structure is looked at here before the
/// extractor is asked. A manifest that it returns is not empty.
pub fn extract(tag: &str, payload: &[u8]) -> (r: Result<Vec<u8>, ExtractionError>)
    ensures
        extracted_view(r) == extraction(tag@, payload@),
        tag@.len() == 0 ==> r is Err,
        !walkable(tag@, payload@) ==> r is Err,
        r matches Ok(blob) ==> blob@.len() > 0,
{
    if is_walkable(tag, payload) {
        extracted_from(load_jumbf(tag, payload))
    } else if tag.is_empty() {
        Err(ExtractionError { message: "type is unsupported".to_owned() })
    } else {
        Err(
            ExtractionError {
                message: "asset could not be parsed: container structure is malformed".to_owned(),
            },
        )
    }
}

} // verus!
