//! Container sniffing: which image container a payload claims to be, judged
//! from its leading bytes alone.

use vstd::prelude::*;

verus! {

/// How many leading bytes of a payload the format probe looks at.
pub const PROBE_LEN: usize = 16;

/// The name under which the `image` crate knows the container whose magic
/// number opens `head`, or `None` where it recognises none.
pub uninterp spec fn guessed_format_name(head: Seq<u8>) -> Option<Seq<char>>;

/// The part of a payload that the probe reads: its first `PROBE_LEN` bytes,
/// or all of it where it is shorter.
pub open spec fn head_of(payload: Seq<u8>) -> Seq<u8> {
    if payload.len() <= PROBE_LEN {
        payload
    } else {
        payload.take(PROBE_LEN as int)
    }
}

/// The tag that stands for a probe's answer: the container's name, or the
/// empty text where there is none.
pub open spec fn tag_of_guess(guess: Option<Seq<char>>) -> Seq<char> {
    match guess {
        Some(name) => name,
        None => Seq::empty(),
    }
}

/// The container tag of a payload.
pub open spec fn container_tag(payload: Seq<u8>) -> Seq<char> {
    tag_of_guess(guessed_format_name(head_of(payload)))
}

/// View of a probe's answer.
pub open spec fn guess_view(guess: Option<String>) -> Option<Seq<char>> {
    match guess {
        Some(name) => Some(name@),
        None => None,
    }
}

/// Calls `image::io::Reader::with_guessed_format` on a cursor over `data`
/// and formats the format it settled on with `{:?}`. The reader copies at
/// most the first 16 bytes of the stream and compares them with its table of
/// magic numbers, so the answer depends on those bytes alone. The format is a
/// field-less enum with a derived `Debug`, so a name is never empty.
#[verifier::external_body]
fn guess_format_name(data: &[u8]) -> (guess: Option<String>)
    ensures
        guess_view(guess) == guessed_format_name(head_of(data@)),
        guess matches Some(name) ==> name@.len() > 0,
{
    match image::io::Reader::new(std::io::Cursor::new(data)).with_guessed_format() {
        Ok(reader) => match reader.format() {
            Some(format) => Some(format!("{:?}", format)),
            None => None,
        },
        Err(_) => None,
    }
}

/// Turns a probe's answer into a container tag: the name where there is
/// one, the empty tag otherwise.
pub fn tag_from_guess(guess: Option<String>) -> (tag: String)
    ensures
        tag@ == tag_of_guess(guess_view(guess)),
{
    match guess {
        Some(name) => name,
        None => String::new(),
    }
}

/// Classifies a payload by its magic number. The tag is empty exactly when
/// no known container was recognised; nothing but the leading `PROBE_LEN`
/// bytes is consulted, and the call never fails.
pub fn detect_image_format(data: &[u8]) -> (tag: String)
    ensures
        tag@ == container_tag(data@),
        tag@.len() == 0 <==> guessed_format_name(head_of(data@)) is None,
{
    tag_from_guess(guess_format_name(data))
}

} // verus!
