use vstd::prelude::*;
use vstd::string::*;

use crate::error::IngestError;
use crate::naming::option_text;
use crate::report::{
    distinct_names, lemma_recorded_all_appends, lemma_recorded_keeps_names_distinct, recorded,
    recorded_all, report_json, EntryModel, IngestionResult,
};
use crate::storage::{path_in, LayoutModel, StorageLayout};
use crate::thumbnail::{
    decoded_size, has_pixels, is_picture, thumbnail_of, thumbnail_size_of, Picture, THUMB_BOX,
};

verus! {

/// What the driver of a local upload reports back to the machine.
pub enum LocalEvent {
    /// The stream gave another part; `filename` is what its content
    /// disposition names, if it names a file at all.
    Part { filename: Option<String> },
    /// The stream has no further part.
    EndOfStream,
    /// The part gave another chunk of bytes.
    Chunk { data: Vec<u8> },
    /// The part has no further chunk.
    EndOfPart,
    /// The bytes were handed to the decoder; `picture` is what it made of
    /// them, if it made a picture of them at all.
    Decoded { picture: Option<Picture> },
    /// The thumbnail was stored; `size` is the size of its file.
    ThumbnailStored { size: usize },
    /// Reading the stream, or creating, writing or measuring a file failed.
    IoFailed,
}

/// A `LocalEvent` as the contracts see it; of a picture, its dimensions.
pub enum LocalEventModel {
    Part { filename: Option<Seq<char>> },
    EndOfStream,
    Chunk { data: Seq<u8> },
    EndOfPart,
    Decoded { picture: Option<(int, int)> },
    ThumbnailStored { size: nat },
    IoFailed,
}

impl View for LocalEvent {
    type V = LocalEventModel;

    open spec fn view(&self) -> LocalEventModel {
        match *self {
            LocalEvent::Part { filename } => LocalEventModel::Part {
                filename: option_text(filename),
            },
            LocalEvent::EndOfStream => LocalEventModel::EndOfStream,
            LocalEvent::Chunk { data } => LocalEventModel::Chunk { data: data@ },
            LocalEvent::EndOfPart => LocalEventModel::EndOfPart,
            LocalEvent::Decoded { picture } => LocalEventModel::Decoded {
                picture: decoded_size(picture),
            },
            LocalEvent::ThumbnailStored { size } => LocalEventModel::ThumbnailStored {
                size: size as nat,
            },
            LocalEvent::IoFailed => LocalEventModel::IoFailed,
        }
    }
}

/// The picture that a `Decoded` event brings, where it has pixels and fits
/// the box of thumbnails: such a picture is its own thumbnail.
pub open spec fn small_picture(event: LocalEvent) -> Option<Picture> {
    match event {
        LocalEvent::Decoded { picture: Some(p) } => if has_pixels(p.size().0, p.size().1) && p.size().0
            <= THUMB_BOX && p.size().1 <= THUMB_BOX {
            Some(p)
        } else {
            None
        },
        _ => None,
    }
}

/// The picture that the driver is asked to store, where it is asked to.
pub open spec fn picture_to_store(action: Option<LocalAction>) -> Option<Picture> {
    match action {
        Some(LocalAction::SaveThumbnail { picture, .. }) => Some(picture),
        _ => None,
    }
}

/// What the machine asks the driver of a local upload to do next.
pub enum LocalAction {
    /// Read the next part of the stream.
    ReadPart,
    /// Create the file at `path`, then read the first chunk of the part.
    CreateFile { path: String },
    /// Write `data` to the file created last, then read the next chunk.
    WriteChunk { data: Vec<u8> },
    /// Hand `data`, the bytes of the whole part, to the decoder.
    Decode { data: Vec<u8> },
    /// Store `picture` at `path` and measure the file.
    SaveThumbnail { path: String, picture: Picture },
    /// Answer the request with `body`.
    Respond { body: String },
    /// Fail the request, with no body.
    Abort { error: IngestError },
}

/// A `LocalAction` as the contracts see it; of the picture, its dimensions.
pub enum LocalActionModel {
    ReadPart,
    CreateFile { path: Seq<char> },
    WriteChunk { data: Seq<u8> },
    Decode { data: Seq<u8> },
    SaveThumbnail { path: Seq<char>, size: (int, int) },
    Respond { body: Seq<char> },
    Abort { error: IngestError },
}

impl View for LocalAction {
    type V = LocalActionModel;

    open spec fn view(&self) -> LocalActionModel {
        match *self {
            LocalAction::ReadPart => LocalActionModel::ReadPart,
            LocalAction::CreateFile { path } => LocalActionModel::CreateFile { path: path@ },
            LocalAction::WriteChunk { data } => LocalActionModel::WriteChunk { data: data@ },
            LocalAction::Decode { data } => LocalActionModel::Decode { data: data@ },
            LocalAction::SaveThumbnail { path, picture } => LocalActionModel::SaveThumbnail {
                path: path@,
                size: picture.size(),
            },
            LocalAction::Respond { body } => LocalActionModel::Respond { body: body@ },
            LocalAction::Abort { error } => LocalActionModel::Abort { error },
        }
    }
}

/// Where a local upload stands.
pub enum LocalPhase {
    /// Between parts.
    AwaitingPart,
    /// Inside the part called `name`, of which `received` has come so far.
    Receiving { name: Seq<char>, received: Seq<u8> },
    /// The part called `name` came in `full` bytes, which are being decoded.
    Decoding { name: Seq<char>, full: nat },
    /// The thumbnail of the part called `name` is being stored.
    Storing { name: Seq<char>, full: nat },
    /// The response has been given.
    Finished,
    /// The request was aborted.
    Failed { error: IngestError },
}

/// A local upload as the contracts see it.
pub struct LocalModel {
    pub layout: LayoutModel,
    pub result: Seq<EntryModel>,
    pub phase: LocalPhase,
}

/// A local upload that has not begun: the driver starts by reading a part.
pub open spec fn local_start(layout: LayoutModel) -> LocalModel {
    LocalModel { layout, result: Seq::empty(), phase: LocalPhase::AwaitingPart }
}

/// The request is aborted with `error`.
pub open spec fn local_failed(s: LocalModel, error: IngestError) -> (LocalModel, LocalActionModel) {
    (LocalModel { phase: LocalPhase::Failed { error }, ..s }, LocalActionModel::Abort { error })
}

/// The request is answered with the report of what is recorded.
pub open spec fn local_finished(s: LocalModel) -> (LocalModel, LocalActionModel) {
    (
        LocalModel { phase: LocalPhase::Finished, ..s },
        LocalActionModel::Respond { body: report_json(s.result) },
    )
}

/// The machine: the state and the action that follow `event` in state `s`,
/// or `None` where `s` does not take `event`.
///
/// Between parts, a part without a filename aborts the request, a part
/// with an empty filename or the end of the stream ends it with the
/// report, and any other part begins to be received. Chunks are kept and
/// handed on to be written. At the end of a part its bytes are handed on
/// to be decoded, and the thumbnail of the picture that comes back is
/// handed on to be stored; bytes that give no picture abort the request. The stored thumbnail's size completes the entry. A failure
/// of the driver aborts the request from any state that still runs.
pub open spec fn local_step(s: LocalModel, event: LocalEventModel) -> Option<
    (LocalModel, LocalActionModel),
> {
    match s.phase {
        LocalPhase::AwaitingPart => match event {
            LocalEventModel::Part { filename: None } => Some(
                local_failed(s, IngestError::InvalidPart),
            ),
            LocalEventModel::Part { filename: Some(name) } => if name.len() == 0 {
                Some(local_finished(s))
            } else {
                Some(
                    (
                        LocalModel {
                            phase: LocalPhase::Receiving { name, received: Seq::empty() },
                            ..s
                        },
                        LocalActionModel::CreateFile { path: path_in(s.layout.full_dir, name) },
                    ),
                )
            },
            LocalEventModel::EndOfStream => Some(local_finished(s)),
            LocalEventModel::IoFailed => Some(local_failed(s, IngestError::Io)),
            _ => None,
        },
        LocalPhase::Receiving { name, received } => match event {
            LocalEventModel::Chunk { data } => Some(
                (
                    LocalModel {
                        phase: LocalPhase::Receiving { name, received: received + data },
                        ..s
                    },
                    LocalActionModel::WriteChunk { data },
                ),
            ),
            LocalEventModel::EndOfPart => Some(
                (
                    LocalModel { phase: LocalPhase::Decoding { name, full: received.len() }, ..s },
                    LocalActionModel::Decode { data: received },
                ),
            ),
            LocalEventModel::IoFailed => Some(local_failed(s, IngestError::Io)),
            _ => None,
        },
        LocalPhase::Decoding { name, full } => match event {
            LocalEventModel::Decoded { picture } => if is_picture(picture) {
                Some(
                    (
                        LocalModel { phase: LocalPhase::Storing { name, full }, ..s },
                        LocalActionModel::SaveThumbnail {
                            path: path_in(s.layout.thumb_dir, name),
                            size: thumbnail_size_of(picture),
                        },
                    ),
                )
            } else {
                Some(local_failed(s, IngestError::ImageDecode))
            },
            LocalEventModel::IoFailed => Some(local_failed(s, IngestError::Io)),
            _ => None,
        },
        LocalPhase::Storing { name, full } => match event {
            LocalEventModel::ThumbnailStored { size } => Some(
                (
                    LocalModel {
                        phase: LocalPhase::AwaitingPart,
                        result: recorded(s.result, EntryModel { name, full, thumb: size }),
                        ..s
                    },
                    LocalActionModel::ReadPart,
                ),
            ),
            LocalEventModel::IoFailed => Some(local_failed(s, IngestError::Io)),
            _ => None,
        },
        LocalPhase::Finished => None,
        LocalPhase::Failed { .. } => None,
    }
}

/// The state after `events` have come one after another, or `None` where
/// one of them is not taken.
pub open spec fn local_run(s: LocalModel, events: Seq<LocalEventModel>) -> Option<LocalModel>
    decreases events.len(),
{
    if events.len() == 0 {
        Some(s)
    } else {
        match local_step(s, events.first()) {
            Some((next, _)) => local_run(next, events.drop_first()),
            None => None,
        }
    }
}

enum Phase {
    AwaitingPart,
    Receiving { name: String, received: Vec<u8> },
    Decoding { name: String, full: usize },
    Storing { name: String, full: usize },
    Finished,
    Failed { error: IngestError },
}

/// The state of one local upload. The driver reads the multipart stream
/// and the file system; every decision is taken by `step`.
pub struct LocalUpload {
    layout: StorageLayout,
    result: IngestionResult,
    phase: Phase,
}

impl View for LocalUpload {
    type V = LocalModel;

    closed spec fn view(&self) -> LocalModel {
        LocalModel {
            layout: self.layout@,
            result: self.result@,
            phase: match self.phase {
                Phase::AwaitingPart => LocalPhase::AwaitingPart,
                Phase::Receiving { name, received } => LocalPhase::Receiving {
                    name: name@,
                    received: received@,
                },
                Phase::Decoding { name, full } => LocalPhase::Decoding {
                    name: name@,
                    full: full as nat,
                },
                Phase::Storing { name, full } => LocalPhase::Storing {
                    name: name@,
                    full: full as nat,
                },
                Phase::Finished => LocalPhase::Finished,
                Phase::Failed { error } => LocalPhase::Failed { error },
            },
        }
    }
}

fn append_bytes(buffer: &mut Vec<u8>, data: &Vec<u8>)
    ensures
        final(buffer)@ == old(buffer)@ + data@,
{
    let mut i: usize = 0;
    while i < data.len()
        invariant
            i <= data@.len(),
            buffer@ == old(buffer)@ + data@.take(i as int),
        decreases data@.len() - i,
    {
        buffer.push(data[i]);
        assert(data@.take(i + 1) =~= data@.take(i as int).push(data@[i as int]));
        i += 1;
    }
    assert(data@.take(data@.len() as int) =~= data@);
}

impl LocalUpload {
    /// No name is recorded twice in the result so far.
    pub closed spec fn well_formed(&self) -> bool {
        self.result.well_formed()
    }

    /// A local upload that has not begun.
    pub fn new(layout: StorageLayout) -> (machine: LocalUpload)
        ensures
            machine@ == local_start(layout@),
            machine.well_formed(),
    {
        LocalUpload { layout, result: IngestionResult::new(), phase: Phase::AwaitingPart }
    }

    /// Whether the request is over, answered or aborted.
    pub fn is_over(&self) -> (over: bool)
        ensures
            over == (self@.phase is Finished || self@.phase is Failed),
    {
        match self.phase {
            Phase::Finished => true,
            Phase::Failed { .. } => true,
            _ => false,
        }
    }

    /// The sizes recorded so far.
    pub fn result(&self) -> (result: &IngestionResult)
        requires
            self.well_formed(),
        ensures
            result@ == self@.result,
            result.well_formed(),
    {
        &self.result
    }

    /// Takes `event` and says what to do next, as `local_step` has it. An
    /// event that the state does not take changes nothing and gives `None`.
    /// A decoded picture that fits the box is itself handed on to be stored.
    pub fn step(self, event: LocalEvent) -> (r: (LocalUpload, Option<LocalAction>))
        requires
            self.well_formed(),
        ensures
            r.0.well_formed(),
            match local_step(self@, event@) {
                Some((next, action)) => r.0@ == next && r.1 is Some && r.1.unwrap()@ == action,
                None => r.0@ == self@ && r.1 is None,
            },
            self@.phase is Decoding && small_picture(event) is Some ==> picture_to_store(r.1)
                == small_picture(event),
    {
        let LocalUpload { layout, result, phase } = self;
        match phase {
            Phase::AwaitingPart => match event {
                LocalEvent::Part { filename } => match filename {
                    None => {
                        let error = IngestError::InvalidPart;
                        (
                            LocalUpload { layout, result, phase: Phase::Failed { error } },
                            Some(LocalAction::Abort { error }),
                        )
                    },
                    Some(name) => {
                        if name.as_str().is_empty() {
                            let body = result.to_json();
                            (
                                LocalUpload { layout, result, phase: Phase::Finished },
                                Some(LocalAction::Respond { body }),
                            )
                        } else {
                            let path = layout.full_path(name.as_str());
                            (
                                LocalUpload {
                                    layout,
                                    result,
                                    phase: Phase::Receiving { name, received: Vec::new() },
                                },
                                Some(LocalAction::CreateFile { path }),
                            )
                        }
                    },
                },
                LocalEvent::EndOfStream => {
                    let body = result.to_json();
                    (
                        LocalUpload { layout, result, phase: Phase::Finished },
                        Some(LocalAction::Respond { body }),
                    )
                },
                LocalEvent::IoFailed => {
                    let error = IngestError::Io;
                    (
                        LocalUpload { layout, result, phase: Phase::Failed { error } },
                        Some(LocalAction::Abort { error }),
                    )
                },
                _ => (LocalUpload { layout, result, phase: Phase::AwaitingPart }, None),
            },
            Phase::Receiving { name, received } => match event {
                LocalEvent::Chunk { data } => {
                    let mut received = received;
                    append_bytes(&mut received, &data);
                    (
                        LocalUpload { layout, result, phase: Phase::Receiving { name, received } },
                        Some(LocalAction::WriteChunk { data }),
                    )
                },
                LocalEvent::EndOfPart => {
                    let full = received.len();
                    (
                        LocalUpload { layout, result, phase: Phase::Decoding { name, full } },
                        Some(LocalAction::Decode { data: received }),
                    )
                },
                LocalEvent::IoFailed => {
                    let error = IngestError::Io;
                    (
                        LocalUpload { layout, result, phase: Phase::Failed { error } },
                        Some(LocalAction::Abort { error }),
                    )
                },
                _ => (
                    LocalUpload { layout, result, phase: Phase::Receiving { name, received } },
                    None,
                ),
            },
            Phase::Decoding { name, full } => match event {
                LocalEvent::Decoded { picture } => match thumbnail_of(picture) {
                    Ok(thumb) => {
                        let path = layout.thumb_path(name.as_str());
                        (
                            LocalUpload { layout, result, phase: Phase::Storing { name, full } },
                            Some(LocalAction::SaveThumbnail { path, picture: thumb }),
                        )
                    },
                    Err(error) => (
                        LocalUpload { layout, result, phase: Phase::Failed { error } },
                        Some(LocalAction::Abort { error }),
                    ),
                },
                LocalEvent::IoFailed => {
                    let error = IngestError::Io;
                    (
                        LocalUpload { layout, result, phase: Phase::Failed { error } },
                        Some(LocalAction::Abort { error }),
                    )
                },
                _ => (LocalUpload { layout, result, phase: Phase::Decoding { name, full } }, None),
            },
            Phase::Storing { name, full } => match event {
                LocalEvent::ThumbnailStored { size } => {
                    let mut result = result;
                    result.record(name, full, size);
                    (
                        LocalUpload { layout, result, phase: Phase::AwaitingPart },
                        Some(LocalAction::ReadPart),
                    )
                },
                LocalEvent::IoFailed => {
                    let error = IngestError::Io;
                    (
                        LocalUpload { layout, result, phase: Phase::Failed { error } },
                        Some(LocalAction::Abort { error }),
                    )
                },
                _ => (LocalUpload { layout, result, phase: Phase::Storing { name, full } }, None),
            },
            Phase::Finished => (LocalUpload { layout, result, phase: Phase::Finished }, None),
            Phase::Failed { error } => (
                LocalUpload { layout, result, phase: Phase::Failed { error } },
                None,
            ),
        }
    }
}

/// One part of a request as it went: its name, its chunks, the dimensions
/// of the picture that the decoder made of them, if it made one, and the
/// size that the stored thumbnail turned out to have.
pub struct PartTrace {
    pub name: Seq<char>,
    pub chunks: Seq<Seq<u8>>,
    pub decoded: Option<(int, int)>,
    pub thumb: nat,
}

/// The chunks one after another.
pub open spec fn joined(chunks: Seq<Seq<u8>>) -> Seq<u8>
    decreases chunks.len(),
{
    if chunks.len() == 0 {
        Seq::empty()
    } else {
        chunks.first() + joined(chunks.drop_first())
    }
}

/// One `Chunk` event for each chunk, in order.
pub open spec fn chunk_events(chunks: Seq<Seq<u8>>) -> Seq<LocalEventModel> {
    Seq::new(chunks.len(), |i: int| LocalEventModel::Chunk { data: chunks[i] })
}

/// The events of a part that goes through.
pub open spec fn part_events(part: PartTrace) -> Seq<LocalEventModel> {
    seq![LocalEventModel::Part { filename: Some(part.name) }] + chunk_events(part.chunks) + seq![
        LocalEventModel::EndOfPart,
        LocalEventModel::Decoded { picture: part.decoded },
        LocalEventModel::ThumbnailStored { size: part.thumb },
    ]
}

/// The events of parts that go through, one part after another.
pub open spec fn parts_events(parts: Seq<PartTrace>) -> Seq<LocalEventModel>
    decreases parts.len(),
{
    if parts.len() == 0 {
        Seq::empty()
    } else {
        parts_events(parts.drop_last()) + part_events(parts.last())
    }
}

/// What is reported of a part: its name, the number of its bytes, and the
/// size of its thumbnail.
pub open spec fn part_entry(part: PartTrace) -> EntryModel {
    EntryModel { name: part.name, full: joined(part.chunks).len(), thumb: part.thumb }
}

/// What is reported of each part, in order.
pub open spec fn part_entries(parts: Seq<PartTrace>) -> Seq<EntryModel> {
    Seq::new(parts.len(), |i: int| part_entry(parts[i]))
}

/// A part that can go through: it has a name, and the decoder made a
/// picture with pixels of its bytes.
pub open spec fn part_is_sound(part: PartTrace) -> bool {
    part.name.len() > 0 && is_picture(part.decoded)
}

/// Running two runs of events in a row is running the one, then the other.
pub proof fn lemma_local_run_splits(
    s: LocalModel,
    first: Seq<LocalEventModel>,
    second: Seq<LocalEventModel>,
)
    ensures
        local_run(s, first + second) == match local_run(s, first) {
            Some(middle) => local_run(middle, second),
            None => None,
        },
    decreases first.len(),
{
    if first.len() == 0 {
        assert(first + second =~= second);
    } else {
        let whole = first + second;
        assert(whole.first() == first.first());
        assert(whole.drop_first() =~= first.drop_first() + second);
        match local_step(s, first.first()) {
            Some((next, _)) => {
                lemma_local_run_splits(next, first.drop_first(), second);
            },
            None => {},
        }
    }
}

/// Chunks are kept in the order in which they come.
proof fn lemma_chunks_are_kept(s: LocalModel, chunks: Seq<Seq<u8>>)
    requires
        s.phase is Receiving,
    ensures
        local_run(s, chunk_events(chunks)) == Some(
            LocalModel {
                phase: LocalPhase::Receiving {
                    name: s.phase->Receiving_name,
                    received: s.phase->received + joined(chunks),
                },
                ..s
            },
        ),
    decreases chunks.len(),
{
    let events = chunk_events(chunks);
    let name = s.phase->Receiving_name;
    let received = s.phase->received;
    if chunks.len() == 0 {
        assert(received + joined(chunks) =~= received);
    } else {
        let next = LocalModel {
            phase: LocalPhase::Receiving { name, received: received + chunks.first() },
            ..s
        };
        assert(events.first() == LocalEventModel::Chunk { data: chunks.first() });
        assert(events.drop_first() =~= chunk_events(chunks.drop_first()));
        lemma_chunks_are_kept(next, chunks.drop_first());
        assert((received + chunks.first()) + joined(chunks.drop_first()) =~= received + joined(
            chunks,
        ));
    }
}

/// A sound part that comes between parts is recorded, and the machine is
/// between parts again.
proof fn lemma_part_is_recorded(s: LocalModel, part: PartTrace)
    requires
        s.phase is AwaitingPart,
        part_is_sound(part),
    ensures
        local_run(s, part_events(part)) == Some(
            LocalModel { result: recorded(s.result, part_entry(part)), ..s },
        ),
{
    let opening = seq![LocalEventModel::Part { filename: Some(part.name) }];
    let closing = seq![
        LocalEventModel::EndOfPart,
        LocalEventModel::Decoded { picture: part.decoded },
        LocalEventModel::ThumbnailStored { size: part.thumb },
    ];
    let chunks = chunk_events(part.chunks);
    let receiving = LocalModel {
        phase: LocalPhase::Receiving { name: part.name, received: Seq::empty() },
        ..s
    };
    let received = LocalModel {
        phase: LocalPhase::Receiving { name: part.name, received: joined(part.chunks) },
        ..s
    };
    let decoding = LocalModel {
        phase: LocalPhase::Decoding { name: part.name, full: joined(part.chunks).len() },
        ..s
    };
    let storing = LocalModel {
        phase: LocalPhase::Storing { name: part.name, full: joined(part.chunks).len() },
        ..s
    };
    let done = LocalModel { result: recorded(s.result, part_entry(part)), ..s };

    assert(local_run(s, opening) == Some(receiving)) by {
        assert(opening.drop_first() =~= Seq::<LocalEventModel>::empty());
        assert(local_run(receiving, opening.drop_first()) == Some(receiving));
    }
    assert(local_run(receiving, chunks) == Some(received)) by {
        lemma_chunks_are_kept(receiving, part.chunks);
        assert(Seq::<u8>::empty() + joined(part.chunks) =~= joined(part.chunks));
    }
    assert(local_run(received, closing) == Some(done)) by {
        let rest = closing.drop_first();
        let last = rest.drop_first();
        assert(rest =~= seq![
            LocalEventModel::Decoded { picture: part.decoded },
            LocalEventModel::ThumbnailStored { size: part.thumb },
        ]);
        assert(last =~= seq![LocalEventModel::ThumbnailStored { size: part.thumb }]);
        assert(last.drop_first() =~= Seq::<LocalEventModel>::empty());
        assert(local_step(received, closing.first()).unwrap().0 == decoding);
        assert(local_step(decoding, rest.first()).unwrap().0 == storing);
        assert(local_step(storing, last.first()).unwrap().0 == done);
        assert(local_run(done, last.drop_first()) == Some(done));
        assert(local_run(storing, last) == Some(done));
        assert(local_run(decoding, rest) == Some(done));
    }
    lemma_local_run_splits(s, opening, chunks);
    lemma_local_run_splits(s, opening + chunks, closing);
}

/// Sound parts that come one after another are recorded one after another.
proof fn lemma_parts_are_recorded(s: LocalModel, parts: Seq<PartTrace>)
    requires
        s.phase is AwaitingPart,
        forall|i: int| 0 <= i < parts.len() ==> part_is_sound(#[trigger] parts[i]),
    ensures
        local_run(s, parts_events(parts)) == Some(
            LocalModel { result: recorded_all(s.result, part_entries(parts)), ..s },
        ),
    decreases parts.len(),
{
    if parts.len() == 0 {
        assert(part_entries(parts) =~= Seq::<EntryModel>::empty());
    } else {
        let front = parts.drop_last();
        assert forall|i: int| 0 <= i < front.len() implies part_is_sound(#[trigger] front[i]) by {
            assert(front[i] == parts[i]);
        }
        lemma_parts_are_recorded(s, front);
        let middle = LocalModel { result: recorded_all(s.result, part_entries(front)), ..s };
        assert(part_is_sound(parts[parts.len() - 1]));
        lemma_part_is_recorded(middle, parts.last());
        lemma_local_run_splits(s, parts_events(front), part_events(parts.last()));
        assert(part_entries(parts).drop_last() =~= part_entries(front));
        assert(part_entries(parts).last() == part_entry(parts.last()));
    }
}

/// A request whose parts all have a name, each a different one, and hold
/// an image each, is answered with a report of exactly its parts: one
/// entry for each, in order, with the number of the part's bytes as `full`
/// and the size of its stored thumbnail as `thumb`.
pub proof fn lemma_every_part_is_reported(layout: LayoutModel, parts: Seq<PartTrace>)
    requires
        forall|i: int| 0 <= i < parts.len() ==> part_is_sound(#[trigger] parts[i]),
        distinct_names(part_entries(parts)),
    ensures
        part_entries(parts).len() == parts.len(),
        local_run(local_start(layout), parts_events(parts)) == Some(
            LocalModel { result: part_entries(parts), ..local_start(layout) },
        ),
        local_step(
            LocalModel { result: part_entries(parts), ..local_start(layout) },
            LocalEventModel::EndOfStream,
        ) == Some(
            (
                LocalModel {
                    layout,
                    result: part_entries(parts),
                    phase: LocalPhase::Finished,
                },
                LocalActionModel::Respond { body: report_json(part_entries(parts)) },
            ),
        ),
{
    let start = local_start(layout);
    lemma_parts_are_recorded(start, parts);
    assert(Seq::<EntryModel>::empty() + part_entries(parts) =~= part_entries(parts));
    lemma_recorded_all_appends(Seq::empty(), part_entries(parts));
}

/// The events of a part until the decoder has had its bytes.
pub open spec fn part_arrival(part: PartTrace) -> Seq<LocalEventModel> {
    seq![LocalEventModel::Part { filename: Some(part.name) }] + chunk_events(part.chunks) + seq![
        LocalEventModel::EndOfPart,
        LocalEventModel::Decoded { picture: part.decoded },
    ]
}

/// A part whose bytes give no picture fails the whole request, whatever came
/// before it: the machine ends up aborted with `ImageDecode`, from where it
/// takes no further event and so never gives a report.
pub proof fn lemma_undecodable_part_fails_the_request(
    layout: LayoutModel,
    parts: Seq<PartTrace>,
    bad: PartTrace,
)
    requires
        forall|i: int| 0 <= i < parts.len() ==> part_is_sound(#[trigger] parts[i]),
        bad.name.len() > 0,
        !is_picture(bad.decoded),
    ensures
        local_run(local_start(layout), parts_events(parts) + part_arrival(bad)) == Some(
            LocalModel {
                layout,
                result: recorded_all(Seq::empty(), part_entries(parts)),
                phase: LocalPhase::Failed { error: IngestError::ImageDecode },
            },
        ),
{
    let start = local_start(layout);
    lemma_parts_are_recorded(start, parts);
    let between = LocalModel { result: recorded_all(start.result, part_entries(parts)), ..start };
    let opening = seq![LocalEventModel::Part { filename: Some(bad.name) }];
    let chunks = chunk_events(bad.chunks);
    let closing = seq![
        LocalEventModel::EndOfPart,
        LocalEventModel::Decoded { picture: bad.decoded },
    ];
    let receiving = LocalModel {
        phase: LocalPhase::Receiving { name: bad.name, received: Seq::empty() },
        ..between
    };
    let decoding = LocalModel {
        phase: LocalPhase::Decoding { name: bad.name, full: joined(bad.chunks).len() },
        ..between
    };
    let received = LocalModel {
        phase: LocalPhase::Receiving { name: bad.name, received: joined(bad.chunks) },
        ..between
    };
    let failed = LocalModel {
        phase: LocalPhase::Failed { error: IngestError::ImageDecode },
        ..between
    };
    assert(local_run(between, opening) == Some(receiving)) by {
        assert(opening.drop_first() =~= Seq::<LocalEventModel>::empty());
        assert(local_run(receiving, opening.drop_first()) == Some(receiving));
    }
    assert(local_run(receiving, chunks) == Some(received)) by {
        lemma_chunks_are_kept(receiving, bad.chunks);
        assert(Seq::<u8>::empty() + joined(bad.chunks) =~= joined(bad.chunks));
    }
    assert(local_run(received, closing) == Some(failed)) by {
        let rest = closing.drop_first();
        assert(rest =~= seq![LocalEventModel::Decoded { picture: bad.decoded }]);
        assert(rest.drop_first() =~= Seq::<LocalEventModel>::empty());
        assert(local_step(received, closing.first()).unwrap().0 == decoding);
        assert(local_step(decoding, rest.first()).unwrap().0 == failed);
        assert(local_run(failed, rest.drop_first()) == Some(failed));
        assert(local_run(decoding, rest) == Some(failed));
    }
    lemma_local_run_splits(between, opening, chunks);
    lemma_local_run_splits(between, opening + chunks, closing);
    lemma_local_run_splits(start, parts_events(parts), part_arrival(bad));
}

/// The report is given only between parts, with what was recorded until
/// then; a request that is aborted is aborted for good: neither a finished
/// nor a failed upload takes any event, so nothing follows an `Abort`.
pub proof fn lemma_no_report_after_failure(s: LocalModel, event: LocalEventModel)
    ensures
        s.phase is Finished || s.phase is Failed ==> local_step(s, event) is None,
        local_step(s, event) matches Some((next, action)) ==> {
            &&& action is Respond <==> next.phase is Finished
            &&& action is Abort <==> next.phase is Failed
            &&& action matches LocalActionModel::Respond { body } ==> s.phase is AwaitingPart
                && body == report_json(s.result)
            &&& next.layout == s.layout
        },
{
}

/// An entry is recorded only when a stored thumbnail is reported, that is
/// once the part has been handed on in full and its thumbnail is in place:
/// no other step changes what is recorded.
pub proof fn lemma_only_complete_entries_are_recorded(s: LocalModel, event: LocalEventModel)
    ensures
        local_step(s, event) matches Some((next, _)) ==> {
            ||| next.result == s.result
            ||| s.phase is Storing && event is ThumbnailStored && next.result == recorded(
                s.result,
                EntryModel {
                    name: s.phase->Storing_name,
                    full: s.phase->Storing_full,
                    thumb: event->size,
                },
            )
        },
{
}

/// Bytes of which the decoder makes no picture, or one without pixels,
/// abort the request.
pub proof fn lemma_undecodable_part_aborts(s: LocalModel, picture: Option<(int, int)>)
    requires
        s.phase is Decoding,
        !is_picture(picture),
    ensures
        local_step(s, LocalEventModel::Decoded { picture }) == Some(
            local_failed(s, IngestError::ImageDecode),
        ),
{
}

/// A first part with an empty filename ends the request with the report of
/// nothing, which is `{}`.
pub proof fn lemma_empty_first_name_reports_nothing(layout: LayoutModel)
    ensures
        local_step(
            local_start(layout),
            LocalEventModel::Part { filename: Some(Seq::empty()) },
        ) == Some(
            (
                LocalModel { phase: LocalPhase::Finished, ..local_start(layout) },
                LocalActionModel::Respond { body: "{}"@ },
            ),
        ),
{
}

/// Each step keeps the recorded names distinct.
pub proof fn lemma_step_keeps_names_distinct(s: LocalModel, event: LocalEventModel)
    requires
        distinct_names(s.result),
    ensures
        local_step(s, event) matches Some((next, _)) ==> distinct_names(next.result),
{
    if let LocalPhase::Storing { name, full } = s.phase {
        if let LocalEventModel::ThumbnailStored { size } = event {
            lemma_recorded_keeps_names_distinct(s.result, EntryModel { name, full, thumb: size });
        }
    }
}

} // verus!
