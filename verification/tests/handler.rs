use c2pa_api::extract::ExtractionError;
use c2pa_api::fingerprint::fingerprint;
use c2pa_api::handler::{
    after_extraction, after_probe, after_write, begin, response_for, terminal_for, Pending,
    Response, Step, Terminal, STATUS_OK, STATUS_SERVER_ERROR,
};
use c2pa_api::store::{PathProbe, PutOutcome};

fn manifest_block(filler: u8) -> Vec<u8> {
    let mut description = Vec::new();
    description.extend_from_slice(b"jumd");
    description.extend_from_slice(b"c2pa");
    description.extend_from_slice(&[0x00, 0x11, 0x00, 0x10, 0x80, 0x00, 0x00, 0xaa]);
    description.extend_from_slice(&[0x00, 0x38, 0x9b, 0x71]);
    description.push(0x03);
    description.extend_from_slice(b"c2pa\0");
    description.extend_from_slice(&[filler; 12]);

    let mut block = Vec::new();
    let total = 8 + 4 + description.len();
    block.extend_from_slice(&u32::try_from(total).unwrap().to_be_bytes());
    block.extend_from_slice(b"jumb");
    block.extend_from_slice(&u32::try_from(4 + description.len()).unwrap().to_be_bytes());
    block.extend_from_slice(&description);
    block
}

fn jpeg_carrying(block: &[u8]) -> Vec<u8> {
    let mut contents = Vec::new();
    contents.extend_from_slice(b"JP");
    contents.extend_from_slice(&[0x00, 0x01]);
    contents.extend_from_slice(&[0x00, 0x00, 0x00, 0x01]);
    contents.extend_from_slice(block);

    let mut jpeg = vec![0xff, 0xd8, 0xff, 0xeb];
    jpeg.extend_from_slice(&u16::try_from(contents.len() + 2).unwrap().to_be_bytes());
    jpeg.extend_from_slice(&contents);
    jpeg.extend_from_slice(&[0xff, 0xd9]);
    jpeg
}

fn pending_sample() -> Pending {
    Pending {
        key: String::from("00ff"),
        path: String::from("store/00ff.c2pa"),
        manifest: vec![1, 2, 3],
    }
}

#[test]
fn stored_is_answered_with_200() {
    assert_eq!(
        response_for(&Terminal::Stored),
        Response {
            status: 200,
            body: String::from("Image received and processed successfully!"),
        }
    );
}

#[test]
fn duplicate_is_answered_with_200_ok() {
    assert_eq!(
        response_for(&Terminal::Duplicate),
        Response { status: 200, body: String::from("OK") }
    );
}

#[test]
fn no_manifest_is_answered_with_the_extractors_text() {
    assert_eq!(
        response_for(&Terminal::NoManifest(String::from("no JUMBF data found"))),
        Response { status: 500, body: String::from("no JUMBF data found") }
    );
    assert_eq!(
        response_for(&Terminal::NoManifest(String::new())),
        Response { status: 500, body: String::new() }
    );
}

#[test]
fn conflict_is_answered_with_500() {
    assert_eq!(
        response_for(&Terminal::StoreConflict),
        Response { status: 500, body: String::from("Failed to store the C2PA Manifest.") }
    );
}

#[test]
fn write_failure_is_answered_with_500() {
    assert_eq!(
        response_for(&Terminal::StoreIoError),
        Response { status: 500, body: String::from("Internal Server Error") }
    );
}

#[test]
fn status_codes() {
    assert_eq!(STATUS_OK, 200);
    assert_eq!(STATUS_SERVER_ERROR, 500);
}

#[test]
fn put_outcomes_map_to_terminal_states() {
    assert_eq!(terminal_for(PutOutcome::Written), Terminal::Stored);
    assert_eq!(terminal_for(PutOutcome::AlreadyPresent), Terminal::Duplicate);
    assert_eq!(terminal_for(PutOutcome::Conflict), Terminal::StoreConflict);
    assert_eq!(terminal_for(PutOutcome::IoError), Terminal::StoreIoError);
}

#[test]
fn extracted_manifest_becomes_pending() {
    let step = after_extraction("store", String::from("00ff"), Ok(vec![1, 2, 3]));
    assert_eq!(step, Step::Probe(pending_sample()));
}

#[test]
fn failed_extraction_ends_the_request() {
    let failure = ExtractionError { message: String::from("type is unsupported") };
    let step = after_extraction("store", String::from("00ff"), Err(failure));
    assert_eq!(step, Step::Done(Terminal::NoManifest(String::from("type is unsupported"))));
}

#[test]
fn free_path_calls_for_the_write() {
    assert_eq!(after_probe(pending_sample(), PathProbe::Absent), Step::Write(pending_sample()));
}

#[test]
fn existing_file_ends_as_duplicate() {
    assert_eq!(
        after_probe(pending_sample(), PathProbe::RegularFile),
        Step::Done(Terminal::Duplicate)
    );
}

#[test]
fn blocked_path_ends_as_conflict() {
    assert_eq!(
        after_probe(pending_sample(), PathProbe::NotAFile),
        Step::Done(Terminal::StoreConflict)
    );
    assert_eq!(
        after_probe(pending_sample(), PathProbe::Inaccessible),
        Step::Done(Terminal::StoreConflict)
    );
}

#[test]
fn write_ends_the_request() {
    assert_eq!(after_write(true), Step::Done(Terminal::Stored));
    assert_eq!(after_write(false), Step::Done(Terminal::StoreIoError));
}

#[test]
fn begin_rejects_text() {
    assert_eq!(
        begin("store", b"abc"),
        Step::Done(Terminal::NoManifest(String::from("type is unsupported")))
    );
}

#[test]
fn begin_rejects_the_empty_payload() {
    assert_eq!(
        begin("store", b""),
        Step::Done(Terminal::NoManifest(String::from("type is unsupported")))
    );
}

#[test]
fn begin_rejects_a_container_without_handler() {
    assert_eq!(
        begin("store", b"BM\x46\x00\x00\x00\x00\x00\x00\x00\x36\x00\x00\x00\x28\x00"),
        Step::Done(Terminal::NoManifest(String::from("type is unsupported")))
    );
}

#[test]
fn begin_finds_the_manifest() {
    let block = manifest_block(0x5a);
    let jpeg = jpeg_carrying(&block);
    let key = fingerprint(&jpeg);
    let expected = Pending {
        key: key.clone(),
        path: format!("c2pa-store/{}.c2pa", key),
        manifest: block,
    };
    assert_eq!(begin("c2pa-store", &jpeg), Step::Probe(expected));
}

#[test]
fn begin_is_stable() {
    let jpeg = jpeg_carrying(&manifest_block(0x01));
    assert_eq!(begin("store", &jpeg), begin("store", &jpeg));
    assert_eq!(begin("store", b"abc"), begin("store", b"abc"));
}

#[test]
fn payloads_with_one_manifest_have_two_keys() {
    let block = manifest_block(0x7e);
    let one = jpeg_carrying(&block);
    let mut two = one.clone();
    two.extend_from_slice(b"trailer");
    let (first, second) = match (begin("store", &one), begin("store", &two)) {
        (Step::Probe(first), Step::Probe(second)) => (first, second),
        other => panic!("both payloads carry a manifest: {:?}", other),
    };
    assert_eq!(first.manifest, second.manifest);
    assert_ne!(first.key, second.key);
    assert_ne!(first.path, second.path);
}

#[test]
fn begin_rejects_an_endless_tiff() {
    let tiff = [0x49, 0x49, 0x2a, 0x00, 0x08, 0x00, 0x00, 0x00, 0x00, 0x00, 0x08, 0x00, 0x00, 0x00];
    assert_eq!(
        begin("store", &tiff),
        Step::Done(Terminal::NoManifest(String::from(
            "asset could not be parsed: container structure is malformed"
        )))
    );
}
