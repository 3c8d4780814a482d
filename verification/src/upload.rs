//! The write path: from the parts of a multipart upload to the stored file.
//!
//! The handler is a small state machine. Its driver reads the request and
//! writes the file; the machine decides, step by step, what the driver does
//! next. It asks for the parts one after the other, takes the first part
//! whose field name is `file` and ignores every other part, draws a name
//! for the upload, has its bytes written below the media root, and
//! acknowledges with the name. An upload without a `file` part is refused
//! and nothing is written.

use vstd::prelude::*;
use crate::media::{fetch, lemma_fetch_after_store, media_file, media_path};
use crate::naming::{
    extension, extension_of, is_storage_name, lemma_stored_extension, new_storage_name,
};
use crate::response::Status;
use crate::text::{lower, text_eq};

verus! {

/// The field name of the part that holds the upload.
pub const FILE_FIELD: &'static str = "file";

/// The body of the reply to an upload without a `file` part.
pub const NO_FILE_FOUND: &'static str = "no file found";

/// An uploaded file while its request is handled: the name the client gave
/// it, read for its extension only, and its contents.
#[derive(Debug)]
pub struct File {
    /// The file name as the client sent it; empty if it sent none.
    pub name: String,
    /// The whole payload.
    pub bytes: Vec<u8>,
}

impl File {
    /// The file of a part with the given file name, if any, and payload.
    pub fn new(name: Option<String>, bytes: Vec<u8>) -> (r: File)
        ensures
            r.bytes@ == bytes@,
            r.name@ == match name {
                Some(given) => given@,
                None => Seq::empty(),
            },
    {
        match name {
            Some(given) => File { name: given, bytes },
            None => File { name: String::new(), bytes },
        }
    }

    /// The extension of the client's file name: what follows its last dot,
    /// empty if it has none.
    pub fn get_ext(&self) -> (r: &str)
        ensures
            r@ == extension(self.name@),
    {
        extension_of(self.name.as_str())
    }
}

/// Where the handling of one upload stands.
#[derive(Debug)]
pub enum UploadState {
    /// Looking for the `file` part; no part was taken yet.
    Scanning,
    /// The `file` part was found; its payload is being read.
    Reading,
    /// The upload is being written under `name`.
    Storing { name: String },
    /// The reply was given.
    Done,
}

/// What the driver reports back to the machine.
#[derive(Debug)]
pub enum UploadEvent {
    /// The request holds a further part, with this field name if it has one.
    Part { name: Option<String> },
    /// The request holds no further part.
    EndOfParts,
    /// The file name and payload of the part that was to be read.
    Payload { file: File },
    /// The bytes were written.
    Stored,
    /// Reading the request or writing the file failed.
    Failed,
}

/// What the machine has the driver do next.
#[derive(Debug)]
pub enum UploadAction {
    /// Advance to the next part of the request and report it.
    NextPart,
    /// Read the file name and payload of the current part and report them.
    ReadPart,
    /// Write `bytes` to the file at `path`, replacing what is there, and
    /// report the outcome.
    Store { path: String, bytes: Vec<u8> },
    /// Answer the request; the handling is over.
    Reply { status: Status, body: String },
}

/// Whether a part with this field name is the one that holds the upload.
pub open spec fn is_file_part(name: Option<String>) -> bool {
    name matches Some(field) && field@ == FILE_FIELD@
}

/// The steps of the machine: in `state`, on `event`, it may go to `next`
/// and ask for `action`. Every pair of state and event has a step. All of
/// them are determined by the pair, but for the name an upload is stored
/// under, which is drawn at random.
pub open spec fn upload_step(
    state: UploadState,
    event: UploadEvent,
    next: UploadState,
    action: UploadAction,
) -> bool {
    match (state, event) {
        (UploadState::Scanning, UploadEvent::Part { name }) => if is_file_part(name) {
            next is Reading && action is ReadPart
        } else {
            next is Scanning && action is NextPart
        },
        (UploadState::Scanning, UploadEvent::EndOfParts) => {
            &&& next is Done
            &&& action matches UploadAction::Reply { status, body }
            &&& status == Status::BadRequest
            &&& body@ == NO_FILE_FOUND@
        },
        (UploadState::Reading, UploadEvent::Payload { file }) => {
            &&& next matches UploadState::Storing { name }
            &&& is_storage_name(name@, file.name@)
            &&& action matches UploadAction::Store { path, bytes }
            &&& path@ == media_path(name@)
            &&& bytes@ == file.bytes@
        },
        (UploadState::Storing { name }, UploadEvent::Stored) => {
            &&& next is Done
            &&& action matches UploadAction::Reply { status, body }
            &&& status == Status::Accepted
            &&& body@ == name@
        },
        _ => {
            &&& next is Done
            &&& action matches UploadAction::Reply { status, body }
            &&& status == Status::InternalServerError
            &&& body@.len() == 0
        },
    }
}

/// How the handling of an upload starts: nothing is taken yet, and the
/// driver is to report the first part.
pub fn begin_upload() -> (r: (UploadState, UploadAction))
    ensures
        r.0 is Scanning,
        r.1 is NextPart,
{
    (UploadState::Scanning, UploadAction::NextPart)
}

/// Takes one step of the upload handler: from the state it is in and what
/// the driver reports, to the state it goes to and what the driver does
/// next.
pub fn upload(state: UploadState, event: UploadEvent) -> (r: (UploadState, UploadAction))
    ensures
        upload_step(state, event, r.0, r.1),
{
    match (state, event) {
        (UploadState::Scanning, UploadEvent::Part { name }) => {
            let found = match &name {
                Some(field) => text_eq(field.as_str(), FILE_FIELD),
                None => false,
            };
            if found {
                (UploadState::Reading, UploadAction::ReadPart)
            } else {
                (UploadState::Scanning, UploadAction::NextPart)
            }
        },
        (UploadState::Scanning, UploadEvent::EndOfParts) => (
            UploadState::Done,
            UploadAction::Reply {
                status: Status::BadRequest,
                body: String::from_str(NO_FILE_FOUND),
            },
        ),
        (UploadState::Reading, UploadEvent::Payload { file }) => {
            let name = new_storage_name(file.name.as_str());
            let path = media_file(name.as_str());
            (UploadState::Storing { name }, UploadAction::Store { path, bytes: file.bytes })
        },
        (UploadState::Storing { name }, UploadEvent::Stored) => (
            UploadState::Done,
            UploadAction::Reply { status: Status::Accepted, body: name },
        ),
        _ => (
            UploadState::Done,
            UploadAction::Reply { status: Status::InternalServerError, body: String::new() },
        ),
    }
}

/// A course of the handler: it starts out scanning, and each event takes it
/// from one state to the next by a step of the machine.
pub open spec fn is_run(
    states: Seq<UploadState>,
    events: Seq<UploadEvent>,
    actions: Seq<UploadAction>,
) -> bool {
    &&& states.len() == events.len() + 1
    &&& actions.len() == events.len()
    &&& states[0] is Scanning
    &&& forall|i: int|
        0 <= i < events.len() ==> upload_step(
            states[i],
            #[trigger] events[i],
            states[i + 1],
            actions[i],
        )
}

/// The machine scans until it meets a `file` part: while the parts reported
/// so far are all other parts, it is still scanning and has asked for
/// nothing but the next part.
pub proof fn lemma_scan_skips_other_parts(
    states: Seq<UploadState>,
    events: Seq<UploadEvent>,
    actions: Seq<UploadAction>,
    n: int,
)
    requires
        is_run(states, events, actions),
        0 <= n <= events.len(),
        forall|i: int|
            0 <= i < n ==> (#[trigger] events[i] matches UploadEvent::Part { name }
                && !is_file_part(name)),
    ensures
        states[n] is Scanning,
        forall|i: int| 0 <= i < n ==> #[trigger] actions[i] is NextPart,
    decreases n,
{
    if n > 0 {
        lemma_scan_skips_other_parts(states, events, actions, n - 1);
        assert(upload_step(states[n - 1], events[n - 1], states[n], actions[n - 1]));
    }
}

/// The first part with the field name `file` is the one taken: if the parts
/// before the `n`-th are other parts and the `n`-th is a `file` part, the
/// machine skips the former and has the latter read.
pub proof fn lemma_first_file_part_is_taken(
    states: Seq<UploadState>,
    events: Seq<UploadEvent>,
    actions: Seq<UploadAction>,
    n: int,
)
    requires
        is_run(states, events, actions),
        0 <= n < events.len(),
        forall|i: int|
            0 <= i < n ==> (#[trigger] events[i] matches UploadEvent::Part { name }
                && !is_file_part(name)),
        events[n] matches UploadEvent::Part { name } && is_file_part(name),
    ensures
        forall|i: int| 0 <= i < n ==> #[trigger] actions[i] is NextPart,
        actions[n] is ReadPart,
        states[n + 1] is Reading,
{
    lemma_scan_skips_other_parts(states, events, actions, n);
    assert(upload_step(states[n], events[n], states[n + 1], actions[n]));
}

/// An upload without a `file` part is refused and nothing is written: if
/// the request ends after parts that are all other parts, the reply is
/// `400` with the body `no file found`, and no step has asked for a file to
/// be stored.
pub proof fn lemma_upload_without_file_is_refused(
    states: Seq<UploadState>,
    events: Seq<UploadEvent>,
    actions: Seq<UploadAction>,
)
    requires
        is_run(states, events, actions),
        events.len() >= 1,
        forall|i: int|
            0 <= i < events.len() - 1 ==> (#[trigger] events[i] matches UploadEvent::Part { name }
                && !is_file_part(name)),
        events.last() is EndOfParts,
    ensures
        forall|i: int| 0 <= i < actions.len() ==> !(#[trigger] actions[i] is Store),
        actions.last() matches UploadAction::Reply { status, body } && status == Status::BadRequest
            && body@ == NO_FILE_FOUND@,
        states.last() is Done,
{
    let n = events.len() - 1;
    lemma_scan_skips_other_parts(states, events, actions, n);
    assert(upload_step(states[n], events[n], states[n + 1], actions[n]));
}

/// Nothing is stored that was not uploaded as a `file` part: whenever a
/// step asks for a file to be stored, it answers the payload of a part that
/// was reported, one step earlier, with the field name `file`; the bytes to
/// store are that payload, unchanged, and the location is that of a stored
/// name made for the payload's file name.
pub proof fn lemma_store_follows_file_part(
    states: Seq<UploadState>,
    events: Seq<UploadEvent>,
    actions: Seq<UploadAction>,
    n: int,
)
    requires
        is_run(states, events, actions),
        0 <= n < actions.len(),
        actions[n] is Store,
    ensures
        n >= 1,
        events[n - 1] matches UploadEvent::Part { name } && is_file_part(name),
        events[n] matches UploadEvent::Payload { file } && actions[n] matches UploadAction::Store {
            path,
            bytes,
        } && bytes@ == file.bytes@ && exists|name: Seq<char>|
            is_storage_name(name, file.name@) && path@ == media_path(name),
{
    assert(upload_step(states[n], events[n], states[n + 1], actions[n]));
    assert(states[n] is Reading);
    if n >= 1 {
        assert(upload_step(states[n - 1], events[n - 1], states[n], actions[n - 1]));
    }
    let name = states[n + 1]->name;
    match events[n] {
        UploadEvent::Payload { file } => {
            assert(is_storage_name(name@, file.name@));
        },
        _ => {},
    }
}

/// An upload that was stored is acknowledged with its stored name: the
/// reply to the report that the bytes were written is `202`, and its body is
/// the name whose location the bytes went to.
pub proof fn lemma_stored_upload_is_acknowledged(
    states: Seq<UploadState>,
    events: Seq<UploadEvent>,
    actions: Seq<UploadAction>,
    n: int,
)
    requires
        is_run(states, events, actions),
        0 <= n,
        n + 1 < actions.len(),
        actions[n] is Store,
        events[n + 1] is Stored,
    ensures
        actions[n + 1] matches UploadAction::Reply { status, body } && status == Status::Accepted
            && actions[n]->path@ == media_path(body@),
        states[n + 2] is Done,
{
    assert(upload_step(states[n], events[n], states[n + 1], actions[n]));
    assert(upload_step(states[n + 1], events[n + 1], states[n + 2], actions[n + 1]));
}

/// Upload, then fetch: when the driver has written the bytes it was asked
/// to store, into a storage that held `files`, a request for the name in the
/// reply reads exactly the payload that was uploaded, and the name ends in
/// the extension of the client's file name in lower case.
pub proof fn lemma_upload_then_fetch(
    states: Seq<UploadState>,
    events: Seq<UploadEvent>,
    actions: Seq<UploadAction>,
    n: int,
    files: Map<Seq<char>, Seq<u8>>,
)
    requires
        is_run(states, events, actions),
        0 <= n,
        n + 1 < actions.len(),
        actions[n] is Store,
        events[n + 1] is Stored,
    ensures
        events[n] is Payload,
        actions[n + 1] is Reply,
        actions[n + 1]->status == Status::Accepted,
        fetch(
            files.insert(actions[n]->path@, actions[n]->bytes@),
            actions[n + 1]->body@,
        ) == Some(events[n]->file.bytes@),
        extension(actions[n + 1]->body@) == lower(extension(events[n]->file.name@)),
{
    assert(upload_step(states[n], events[n], states[n + 1], actions[n]));
    assert(upload_step(states[n + 1], events[n + 1], states[n + 2], actions[n + 1]));
    let name = actions[n + 1]->body@;
    lemma_fetch_after_store(files, name, events[n]->file.name@, actions[n]->bytes@);
    lemma_stored_extension(name, events[n]->file.name@);
}

} // verus!
