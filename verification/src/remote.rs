use vstd::prelude::*;
use vstd::string::*;

use crate::error::IngestError;
use crate::naming::{is_remote_name_for, resolve_remote_name};
use crate::report::{
    distinct_names, lemma_recorded_all_appends, recorded, recorded_all, report_json, EntryModel,
    IngestionResult,
};
use crate::storage::{path_in, LayoutModel, StorageLayout};
use crate::thumbnail::{
    decoded_size, has_pixels, is_picture, thumbnail_of, thumbnail_size_of, Picture, THUMB_BOX,
};

verus! {

/// What the driver of a remote upload reports back to the machine.
pub enum RemoteEvent {
    /// The URL answered; `body` is the whole body of the answer.
    Fetched { body: Vec<u8> },
    /// The outbound request failed.
    FetchFailed,
    /// The full-size file was created.
    FileCreated,
    /// The body was handed to the decoder; `picture` is what it made of it,
    /// if it made a picture of it at all.
    Decoded { picture: Option<Picture> },
    /// The thumbnail was stored; `size` is the size of its file.
    ThumbnailStored { size: usize },
    /// The body was written to the full-size file; `size` is the number of
    /// bytes that the write reported.
    Written { size: usize },
    /// Creating, writing or measuring a file failed.
    IoFailed,
}

/// A `RemoteEvent` as the contracts see it; of a picture, its dimensions.
pub enum RemoteEventModel {
    Fetched { body: Seq<u8> },
    FetchFailed,
    FileCreated,
    Decoded { picture: Option<(int, int)> },
    ThumbnailStored { size: nat },
    Written { size: nat },
    IoFailed,
}

impl View for RemoteEvent {
    type V = RemoteEventModel;

    open spec fn view(&self) -> RemoteEventModel {
        match *self {
            RemoteEvent::Fetched { body } => RemoteEventModel::Fetched { body: body@ },
            RemoteEvent::FetchFailed => RemoteEventModel::FetchFailed,
            RemoteEvent::FileCreated => RemoteEventModel::FileCreated,
            RemoteEvent::Decoded { picture } => RemoteEventModel::Decoded {
                picture: decoded_size(picture),
            },
            RemoteEvent::ThumbnailStored { size } => RemoteEventModel::ThumbnailStored {
                size: size as nat,
            },
            RemoteEvent::Written { size } => RemoteEventModel::Written { size: size as nat },
            RemoteEvent::IoFailed => RemoteEventModel::IoFailed,
        }
    }
}

/// The picture that a `Decoded` event brings, where it has pixels and fits
/// the box of thumbnails: such a picture is its own thumbnail.
pub open spec fn small_picture(event: RemoteEvent) -> Option<Picture> {
    match event {
        RemoteEvent::Decoded { picture: Some(p) } => if has_pixels(p.size().0, p.size().1) && p.size().0
            <= THUMB_BOX && p.size().1 <= THUMB_BOX {
            Some(p)
        } else {
            None
        },
        _ => None,
    }
}

/// The picture that the driver is asked to store, where it is asked to.
pub open spec fn picture_to_store(action: Option<RemoteAction>) -> Option<Picture> {
    match action {
        Some(RemoteAction::SaveThumbnail { picture, .. }) => Some(picture),
        _ => None,
    }
}

/// What the machine asks the driver of a remote upload to do next.
pub enum RemoteAction {
    /// Fetch the whole body that `url` answers with.
    Fetch { url: String },
    /// Create the file at `path`.
    CreateFile { path: String },
    /// Hand `data`, the body that was fetched, to the decoder.
    Decode { data: Vec<u8> },
    /// Store `picture` at `path` and measure the file.
    SaveThumbnail { path: String, picture: Picture },
    /// Write `data` to the file at `path`, created before.
    WriteFile { path: String, data: Vec<u8> },
    /// Answer the request with `body`.
    Respond { body: String },
    /// Fail the request, with no body.
    Abort { error: IngestError },
}

/// A `RemoteAction` as the contracts see it; of the picture, its dimensions.
pub enum RemoteActionModel {
    Fetch { url: Seq<char> },
    CreateFile { path: Seq<char> },
    Decode { data: Seq<u8> },
    SaveThumbnail { path: Seq<char>, size: (int, int) },
    WriteFile { path: Seq<char>, data: Seq<u8> },
    Respond { body: Seq<char> },
    Abort { error: IngestError },
}

impl View for RemoteAction {
    type V = RemoteActionModel;

    open spec fn view(&self) -> RemoteActionModel {
        match *self {
            RemoteAction::Fetch { url } => RemoteActionModel::Fetch { url: url@ },
            RemoteAction::CreateFile { path } => RemoteActionModel::CreateFile { path: path@ },
            RemoteAction::Decode { data } => RemoteActionModel::Decode { data: data@ },
            RemoteAction::SaveThumbnail { path, picture } => RemoteActionModel::SaveThumbnail {
                path: path@,
                size: picture.size(),
            },
            RemoteAction::WriteFile { path, data } => RemoteActionModel::WriteFile {
                path: path@,
                data: data@,
            },
            RemoteAction::Respond { body } => RemoteActionModel::Respond { body: body@ },
            RemoteAction::Abort { error } => RemoteActionModel::Abort { error },
        }
    }
}

/// Where a remote upload stands. `index` is the place in the list of the
/// URL that is being worked on.
pub enum RemotePhase {
    /// The URL is being fetched.
    Fetching { index: nat },
    /// `body` came and is to be stored as `name`; the full-size file is
    /// being created.
    Creating { index: nat, name: Seq<char>, body: Seq<u8> },
    /// The body is being decoded.
    Decoding { index: nat, name: Seq<char>, body: Seq<u8> },
    /// The thumbnail is being stored.
    Storing { index: nat, name: Seq<char>, body: Seq<u8> },
    /// The thumbnail takes `thumb` bytes; the body is being written.
    Writing { index: nat, name: Seq<char>, thumb: nat },
    /// The response has been given.
    Finished,
    /// The request was aborted.
    Failed { error: IngestError },
}

/// A remote upload as the contracts see it.
pub struct RemoteModel {
    pub layout: LayoutModel,
    pub urls: Seq<Seq<char>>,
    pub result: Seq<EntryModel>,
    pub phase: RemotePhase,
}

/// The request is aborted with `error`.
pub open spec fn remote_failed(s: RemoteModel, error: IngestError) -> (
    RemoteModel,
    RemoteActionModel,
) {
    (RemoteModel { phase: RemotePhase::Failed { error }, ..s }, RemoteActionModel::Abort { error })
}

/// Turns to the URL at place `index`: it is fetched, unless the list ends
/// there or holds the empty string there, which ends the request with the
/// report.
pub open spec fn remote_turn_to(s: RemoteModel, index: nat) -> (RemoteModel, RemoteActionModel) {
    if index < s.urls.len() && s.urls[index as int].len() > 0 {
        (
            RemoteModel { phase: RemotePhase::Fetching { index }, ..s },
            RemoteActionModel::Fetch { url: s.urls[index as int] },
        )
    } else {
        (
            RemoteModel { phase: RemotePhase::Finished, ..s },
            RemoteActionModel::Respond { body: report_json(s.result) },
        )
    }
}

/// How a remote upload over `urls` begins: with nothing recorded, turning
/// to the first URL.
pub open spec fn remote_begin(layout: LayoutModel, urls: Seq<Seq<char>>) -> (
    RemoteModel,
    RemoteActionModel,
) {
    remote_turn_to(
        RemoteModel { layout, urls, result: Seq::empty(), phase: RemotePhase::Finished },
        0,
    )
}

/// The machine: the state and the action that follow `event` in state `s`,
/// or `None` where `s` does not take `event`. `name` is the name given to
/// a body that has just been fetched, and plays no part elsewhere.
///
/// For each URL the full-size file is created, the body is handed on to be
/// decoded, the thumbnail of the picture that comes back is handed on to be
/// stored, and the body is written; the size the write reports and the size
/// of the thumbnail's file make the entry. A body that gives no picture,
/// and any failure of the driver, abort the request.
pub open spec fn remote_step(s: RemoteModel, event: RemoteEventModel, name: Seq<char>) -> Option<
    (RemoteModel, RemoteActionModel),
> {
    match s.phase {
        RemotePhase::Fetching { index } => match event {
            RemoteEventModel::Fetched { body } => Some(
                (
                    RemoteModel { phase: RemotePhase::Creating { index, name, body }, ..s },
                    RemoteActionModel::CreateFile { path: path_in(s.layout.full_dir, name) },
                ),
            ),
            RemoteEventModel::FetchFailed => Some(remote_failed(s, IngestError::Fetch)),
            RemoteEventModel::IoFailed => Some(remote_failed(s, IngestError::Io)),
            _ => None,
        },
        RemotePhase::Creating { index, name, body } => match event {
            RemoteEventModel::FileCreated => Some(
                (
                    RemoteModel { phase: RemotePhase::Decoding { index, name, body }, ..s },
                    RemoteActionModel::Decode { data: body },
                ),
            ),
            RemoteEventModel::IoFailed => Some(remote_failed(s, IngestError::Io)),
            _ => None,
        },
        RemotePhase::Decoding { index, name, body } => match event {
            RemoteEventModel::Decoded { picture } => if is_picture(picture) {
                Some(
                    (
                        RemoteModel { phase: RemotePhase::Storing { index, name, body }, ..s },
                        RemoteActionModel::SaveThumbnail {
                            path: path_in(s.layout.thumb_dir, name),
                            size: thumbnail_size_of(picture),
                        },
                    ),
                )
            } else {
                Some(remote_failed(s, IngestError::ImageDecode))
            },
            RemoteEventModel::IoFailed => Some(remote_failed(s, IngestError::Io)),
            _ => None,
        },
        RemotePhase::Storing { index, name, body } => match event {
            RemoteEventModel::ThumbnailStored { size } => Some(
                (
                    RemoteModel { phase: RemotePhase::Writing { index, name, thumb: size }, ..s },
                    RemoteActionModel::WriteFile {
                        path: path_in(s.layout.full_dir, name),
                        data: body,
                    },
                ),
            ),
            RemoteEventModel::IoFailed => Some(remote_failed(s, IngestError::Io)),
            _ => None,
        },
        RemotePhase::Writing { index, name, thumb } => match event {
            RemoteEventModel::Written { size } => Some(
                remote_turn_to(
                    RemoteModel {
                        result: recorded(s.result, EntryModel { name, full: size, thumb }),
                        ..s
                    },
                    index + 1,
                ),
            ),
            RemoteEventModel::IoFailed => Some(remote_failed(s, IngestError::Io)),
            _ => None,
        },
        RemotePhase::Finished => None,
        RemotePhase::Failed { .. } => None,
    }
}

/// Whether the machine is about to name a body: it awaits a fetch, and
/// the fetch has come.
pub open spec fn names_a_body(s: RemoteModel, event: RemoteEventModel) -> bool {
    s.phase is Fetching && event is Fetched
}

enum Phase {
    Fetching { index: usize },
    Creating { index: usize, name: String, body: Vec<u8> },
    Decoding { index: usize, name: String, body: Vec<u8> },
    Storing { index: usize, name: String, body: Vec<u8> },
    Writing { index: usize, name: String, thumb: usize },
    Finished,
    Failed { error: IngestError },
}

/// The state of one remote upload. The driver fetches the URLs and works
/// the file system; every decision is taken by `step`.
pub struct RemoteUpload {
    layout: StorageLayout,
    urls: Vec<String>,
    result: IngestionResult,
    phase: Phase,
}

/// The characters of each string of a list.
pub open spec fn texts(list: Seq<String>) -> Seq<Seq<char>> {
    Seq::new(list.len(), |i: int| list[i]@)
}

impl View for RemoteUpload {
    type V = RemoteModel;

    closed spec fn view(&self) -> RemoteModel {
        RemoteModel {
            layout: self.layout@,
            urls: texts(self.urls@),
            result: self.result@,
            phase: match self.phase {
                Phase::Fetching { index } => RemotePhase::Fetching { index: index as nat },
                Phase::Creating { index, name, body } => RemotePhase::Creating {
                    index: index as nat,
                    name: name@,
                    body: body@,
                },
                Phase::Decoding { index, name, body } => RemotePhase::Decoding {
                    index: index as nat,
                    name: name@,
                    body: body@,
                },
                Phase::Storing { index, name, body } => RemotePhase::Storing {
                    index: index as nat,
                    name: name@,
                    body: body@,
                },
                Phase::Writing { index, name, thumb } => RemotePhase::Writing {
                    index: index as nat,
                    name: name@,
                    thumb: thumb as nat,
                },
                Phase::Finished => RemotePhase::Finished,
                Phase::Failed { error } => RemotePhase::Failed { error },
            },
        }
    }
}

/// A copy of `data`.
fn copy_of(data: &Vec<u8>) -> (copy: Vec<u8>)
    ensures
        copy@ == data@,
{
    let mut copy: Vec<u8> = Vec::new();
    let mut i: usize = 0;
    while i < data.len()
        invariant
            i <= data@.len(),
            copy@ == data@.take(i as int),
        decreases data@.len() - i,
    {
        copy.push(data[i]);
        assert(data@.take(i + 1) =~= data@.take(i as int).push(data@[i as int]));
        i += 1;
    }
    assert(data@.take(data@.len() as int) =~= data@);
    copy
}

/// Turns to the URL at place `index`, as `remote_turn_to` has it.
fn turn_to(layout: StorageLayout, urls: Vec<String>, result: IngestionResult, index: usize) -> (r: (
    RemoteUpload,
    RemoteAction,
))
    requires
        result.well_formed(),
    ensures
        r.0.well_formed(),
        (r.0@, r.1@) == remote_turn_to(
            RemoteModel {
                layout: layout@,
                urls: texts(urls@),
                result: result@,
                phase: RemotePhase::Finished,
            },
            index as nat,
        ),
{
    if index < urls.len() && !urls[index].as_str().is_empty() {
        let url = urls[index].clone();
        (
            RemoteUpload { layout, urls, result, phase: Phase::Fetching { index } },
            RemoteAction::Fetch { url },
        )
    } else {
        let body = result.to_json();
        (
            RemoteUpload { layout, urls, result, phase: Phase::Finished },
            RemoteAction::Respond { body },
        )
    }
}

impl RemoteUpload {
    /// No name is recorded twice in the result so far, and the URL that is
    /// being worked on is one of the list.
    pub closed spec fn well_formed(&self) -> bool {
        &&& self.result.well_formed()
        &&& match self.phase {
            Phase::Fetching { index } => index < self.urls@.len(),
            Phase::Creating { index, .. } => index < self.urls@.len(),
            Phase::Decoding { index, .. } => index < self.urls@.len(),
            Phase::Storing { index, .. } => index < self.urls@.len(),
            Phase::Writing { index, .. } => index < self.urls@.len(),
            Phase::Finished => true,
            Phase::Failed { .. } => true,
        }
    }

    /// Begins a remote upload over `urls`, as `remote_begin` has it.
    pub fn begin(layout: StorageLayout, urls: Vec<String>) -> (r: (RemoteUpload, RemoteAction))
        ensures
            r.0.well_formed(),
            (r.0@, r.1@) == remote_begin(layout@, texts(urls@)),
    {
        turn_to(layout, urls, IngestionResult::new(), 0)
    }

    /// Whether the request is over, answered or aborted.
    pub fn is_over(&self) -> (over: bool)
        ensures
            over == (self@.phase is Finished || self@.phase is Failed),
    {
        match self.phase {
            Phase::Finished => true,
            Phase::Failed { .. } => true,
            _ => false,
        }
    }

    /// Whether the next event is a fetch, whose body `step` will name. The
    /// URL that is being fetched comes with it.
    pub fn awaits_fetch(&self) -> (url: Option<&String>)
        requires
            self.well_formed(),
        ensures
            match url {
                Some(u) => self@.phase matches RemotePhase::Fetching { index } && index
                    < self@.urls.len() && u@ == self@.urls[index as int],
                None => !(self@.phase is Fetching),
            },
    {
        match &self.phase {
            Phase::Fetching { index } => Some(&self.urls[*index]),
            _ => None,
        }
    }

    /// The sizes recorded so far.
    pub fn result(&self) -> (result: &IngestionResult)
        requires
            self.well_formed(),
        ensures
            result@ == self@.result,
            result.well_formed(),
    {
        &self.result
    }

    /// Takes `event` and says what to do next, as `remote_step` has it
    /// with `name` for a body that has just been fetched. An event that
    /// the state does not take changes nothing and gives `None`.
    pub fn step_named(self, event: RemoteEvent, name: String) -> (r: (
        RemoteUpload,
        Option<RemoteAction>,
    ))
        requires
            self.well_formed(),
        ensures
            r.0.well_formed(),
            match remote_step(self@, event@, name@) {
                Some((next, action)) => r.0@ == next && r.1 is Some && r.1.unwrap()@ == action,
                None => r.0@ == self@ && r.1 is None,
            },
            self@.phase is Decoding && small_picture(event) is Some ==> picture_to_store(r.1)
                == small_picture(event),
    {
        let RemoteUpload { layout, urls, result, phase } = self;
        match phase {
            Phase::Fetching { index } => match event {
                RemoteEvent::Fetched { body } => {
                    let path = layout.full_path(name.as_str());
                    (
                        RemoteUpload {
                            layout,
                            urls,
                            result,
                            phase: Phase::Creating { index, name, body },
                        },
                        Some(RemoteAction::CreateFile { path }),
                    )
                },
                RemoteEvent::FetchFailed => {
                    let error = IngestError::Fetch;
                    (
                        RemoteUpload { layout, urls, result, phase: Phase::Failed { error } },
                        Some(RemoteAction::Abort { error }),
                    )
                },
                RemoteEvent::IoFailed => {
                    let error = IngestError::Io;
                    (
                        RemoteUpload { layout, urls, result, phase: Phase::Failed { error } },
                        Some(RemoteAction::Abort { error }),
                    )
                },
                _ => (RemoteUpload { layout, urls, result, phase: Phase::Fetching { index } }, None),
            },
            Phase::Creating { index, name, body } => match event {
                RemoteEvent::FileCreated => {
                    let data = copy_of(&body);
                    (
                        RemoteUpload {
                            layout,
                            urls,
                            result,
                            phase: Phase::Decoding { index, name, body },
                        },
                        Some(RemoteAction::Decode { data }),
                    )
                },
                RemoteEvent::IoFailed => {
                    let error = IngestError::Io;
                    (
                        RemoteUpload { layout, urls, result, phase: Phase::Failed { error } },
                        Some(RemoteAction::Abort { error }),
                    )
                },
                _ => (
                    RemoteUpload {
                        layout,
                        urls,
                        result,
                        phase: Phase::Creating { index, name, body },
                    },
                    None,
                ),
            },
            Phase::Decoding { index, name, body } => match event {
                RemoteEvent::Decoded { picture } => match thumbnail_of(picture) {
                    Ok(thumb) => {
                        let path = layout.thumb_path(name.as_str());
                        (
                            RemoteUpload {
                                layout,
                                urls,
                                result,
                                phase: Phase::Storing { index, name, body },
                            },
                            Some(RemoteAction::SaveThumbnail { path, picture: thumb }),
                        )
                    },
                    Err(error) => (
                        RemoteUpload { layout, urls, result, phase: Phase::Failed { error } },
                        Some(RemoteAction::Abort { error }),
                    ),
                },
                RemoteEvent::IoFailed => {
                    let error = IngestError::Io;
                    (
                        RemoteUpload { layout, urls, result, phase: Phase::Failed { error } },
                        Some(RemoteAction::Abort { error }),
                    )
                },
                _ => (
                    RemoteUpload {
                        layout,
                        urls,
                        result,
                        phase: Phase::Decoding { index, name, body },
                    },
                    None,
                ),
            },
            Phase::Storing { index, name, body } => match event {
                RemoteEvent::ThumbnailStored { size } => {
                    let path = layout.full_path(name.as_str());
                    (
                        RemoteUpload {
                            layout,
                            urls,
                            result,
                            phase: Phase::Writing { index, name, thumb: size },
                        },
                        Some(RemoteAction::WriteFile { path, data: body }),
                    )
                },
                RemoteEvent::IoFailed => {
                    let error = IngestError::Io;
                    (
                        RemoteUpload { layout, urls, result, phase: Phase::Failed { error } },
                        Some(RemoteAction::Abort { error }),
                    )
                },
                _ => (
                    RemoteUpload {
                        layout,
                        urls,
                        result,
                        phase: Phase::Storing { index, name, body },
                    },
                    None,
                ),
            },
            Phase::Writing { index, name, thumb } => match event {
                RemoteEvent::Written { size } => {
                    let mut result = result;
                    result.record(name, size, thumb);
                    assert(index < urls.len());
                    let (next, action) = turn_to(layout, urls, result, index + 1);
                    (next, Some(action))
                },
                RemoteEvent::IoFailed => {
                    let error = IngestError::Io;
                    (
                        RemoteUpload { layout, urls, result, phase: Phase::Failed { error } },
                        Some(RemoteAction::Abort { error }),
                    )
                },
                _ => (
                    RemoteUpload {
                        layout,
                        urls,
                        result,
                        phase: Phase::Writing { index, name, thumb },
                    },
                    None,
                ),
            },
            Phase::Finished => (RemoteUpload { layout, urls, result, phase: Phase::Finished }, None),
            Phase::Failed { error } => (
                RemoteUpload { layout, urls, result, phase: Phase::Failed { error } },
                None,
            ),
        }
    }

    /// Takes `event` and says what to do next. A body that has just been
    /// fetched is given a fresh name made for its URL; which name is left
    /// open, and with it the step is the one `remote_step` has.
    pub fn step(self, event: RemoteEvent) -> (r: (RemoteUpload, Option<RemoteAction>))
        requires
            self.well_formed(),
        ensures
            r.0.well_formed(),
            self@.phase is Decoding && small_picture(event) is Some ==> picture_to_store(r.1)
                == small_picture(event),
            exists|name: Seq<char>|
                {
                    &&& names_a_body(self@, event@) ==> is_remote_name_for(
                        name,
                        self@.urls[self@.phase->Fetching_index as int],
                    )
                    &&& match #[trigger] remote_step(self@, event@, name) {
                        Some((next, action)) => r.0@ == next && r.1 is Some && r.1.unwrap()@
                            == action,
                        None => r.0@ == self@ && r.1 is None,
                    }
                },
    {
        let fetched = match &event {
            RemoteEvent::Fetched { .. } => true,
            _ => false,
        };
        let name = match self.awaits_fetch() {
            Some(url) => if fetched {
                resolve_remote_name(url.as_str())
            } else {
                String::new()
            },
            None => String::new(),
        };
        let ghost before = self@;
        let r = self.step_named(event, name);
        assert(match remote_step(before, event@, name@) {
            Some((next, action)) => r.0@ == next && r.1 is Some && r.1.unwrap()@ == action,
            None => r.0@ == before && r.1 is None,
        });
        r
    }
}

/// One URL of a request as it went: the name its body was given, the
/// body, the dimensions of the picture that the decoder made of it, if it
/// made one, the size that the stored thumbnail turned out to have, and
/// the number of bytes that the write reported.
pub struct ItemTrace {
    pub name: Seq<char>,
    pub body: Seq<u8>,
    pub decoded: Option<(int, int)>,
    pub thumb: nat,
    pub written: nat,
}

/// What is reported of an item: its name, the bytes written, and the size
/// of its thumbnail.
pub open spec fn item_entry(item: ItemTrace) -> EntryModel {
    EntryModel { name: item.name, full: item.written, thumb: item.thumb }
}

/// What is reported of each item, in order.
pub open spec fn item_entries(items: Seq<ItemTrace>) -> Seq<EntryModel> {
    Seq::new(items.len(), |i: int| item_entry(items[i]))
}

/// The step that follows a step, where that one was taken.
pub open spec fn remote_then(
    before: Option<(RemoteModel, RemoteActionModel)>,
    event: RemoteEventModel,
    name: Seq<char>,
) -> Option<(RemoteModel, RemoteActionModel)> {
    match before {
        Some((s, _)) => remote_step(s, event, name),
        None => None,
    }
}

/// The five steps of an item that goes through: its body comes, the file
/// is created, the body is decoded, the thumbnail is stored, and the body
/// is written.
pub open spec fn remote_item_run(s: RemoteModel, item: ItemTrace) -> Option<
    (RemoteModel, RemoteActionModel),
> {
    remote_then(
        remote_then(
            remote_then(
                remote_then(
                    remote_step(s, RemoteEventModel::Fetched { body: item.body }, item.name),
                    RemoteEventModel::FileCreated,
                    item.name,
                ),
                RemoteEventModel::Decoded { picture: item.decoded },
                item.name,
            ),
            RemoteEventModel::ThumbnailStored { size: item.thumb },
            item.name,
        ),
        RemoteEventModel::Written { size: item.written },
        item.name,
    )
}

/// The state and the last action after `items` have gone through one
/// after another from `start`, or `None` where an event is not taken.
pub open spec fn remote_items_run(
    start: (RemoteModel, RemoteActionModel),
    items: Seq<ItemTrace>,
) -> Option<(RemoteModel, RemoteActionModel)>
    decreases items.len(),
{
    if items.len() == 0 {
        Some(start)
    } else {
        match remote_items_run(start, items.drop_last()) {
            Some((s, _)) => remote_item_run(s, items.last()),
            None => None,
        }
    }
}

/// `count` URLs stand before the end of the batch: none of them is empty,
/// and the list ends behind them or holds the empty string there.
pub open spec fn batch_ends_at(urls: Seq<Seq<char>>, count: nat) -> bool {
    &&& count <= urls.len()
    &&& forall|i: int| 0 <= i < count ==> (#[trigger] urls[i]).len() > 0
    &&& count == urls.len() || urls[count as int].len() == 0
}

/// Where the machine stands once the bodies of the first URLs have gone
/// through as `items`: the items are recorded, and the machine turns to
/// the URL behind them.
proof fn lemma_items_are_recorded(layout: LayoutModel, urls: Seq<Seq<char>>, items: Seq<ItemTrace>)
    requires
        items.len() <= urls.len(),
        forall|i: int| 0 <= i < items.len() ==> (#[trigger] urls[i]).len() > 0,
        forall|i: int| 0 <= i < items.len() ==> is_picture((#[trigger] items[i]).decoded),
    ensures
        remote_items_run(remote_begin(layout, urls), items) == Some(
            remote_turn_to(
                RemoteModel {
                    layout,
                    urls,
                    result: recorded_all(Seq::empty(), item_entries(items)),
                    phase: RemotePhase::Finished,
                },
                items.len(),
            ),
        ),
    decreases items.len(),
{
    if items.len() == 0 {
        assert(item_entries(items) =~= Seq::<EntryModel>::empty());
    } else {
        let front = items.drop_last();
        let item = items.last();
        assert forall|i: int| 0 <= i < front.len() implies is_picture((#[trigger] front[i]).decoded) by {
            assert(front[i] == items[i]);
        }
        lemma_items_are_recorded(layout, urls, front);
        let index = front.len();
        assert(urls[index as int].len() > 0);
        assert(is_picture(items[items.len() - 1].decoded));
        let sofar = recorded_all(Seq::empty(), item_entries(front));
        let base = RemoteModel { layout, urls, result: sofar, phase: RemotePhase::Finished };
        let fetching = RemoteModel { phase: RemotePhase::Fetching { index }, ..base };
        assert(remote_turn_to(base, index).0 == fetching);
        assert(item_entries(items).drop_last() =~= item_entries(front));
        assert(item_entries(items).last() == item_entry(item));
        let creating = RemoteModel {
            phase: RemotePhase::Creating { index, name: item.name, body: item.body },
            ..base
        };
        let decoding = RemoteModel {
            phase: RemotePhase::Decoding { index, name: item.name, body: item.body },
            ..base
        };
        let storing = RemoteModel {
            phase: RemotePhase::Storing { index, name: item.name, body: item.body },
            ..base
        };
        let writing = RemoteModel {
            phase: RemotePhase::Writing { index, name: item.name, thumb: item.thumb },
            ..base
        };
        assert(remote_step(fetching, RemoteEventModel::Fetched { body: item.body }, item.name).unwrap().0
            == creating);
        assert(remote_step(creating, RemoteEventModel::FileCreated, item.name).unwrap().0
            == decoding);
        assert(remote_step(
            decoding,
            RemoteEventModel::Decoded { picture: item.decoded },
            item.name,
        ).unwrap().0 == storing);
        assert(remote_step(
            storing,
            RemoteEventModel::ThumbnailStored { size: item.thumb },
            item.name,
        ).unwrap().0 == writing);
        let after = RemoteModel { result: recorded(sofar, item_entry(item)), ..base };
        assert(remote_step(writing, RemoteEventModel::Written { size: item.written }, item.name)
            == Some(
            remote_turn_to(
                RemoteModel { result: recorded(sofar, item_entry(item)), ..writing },
                index + 1,
            ),
        ));
        assert(remote_turn_to(
            RemoteModel { result: recorded(sofar, item_entry(item)), ..writing },
            index + 1,
        ) == remote_turn_to(after, items.len()));
    }
}

/// Of a request whose URLs answer with images, given names that all
/// differ, exactly the URLs before the end of the batch are worked on, in
/// order, and exactly they are reported.
///
/// Once the bodies of the first URLs have gone through as `items`, they
/// are the entries recorded, one each and in order. If more URLs stand
/// before the end of the batch, the machine asks for the next of them;
/// if these were all, it answers with the report of the items.
pub proof fn lemma_batch_is_reported(
    layout: LayoutModel,
    urls: Seq<Seq<char>>,
    count: nat,
    items: Seq<ItemTrace>,
)
    requires
        batch_ends_at(urls, count),
        items.len() <= count,
        forall|i: int| 0 <= i < items.len() ==> is_picture((#[trigger] items[i]).decoded),
        distinct_names(item_entries(items)),
    ensures
        item_entries(items).len() == items.len(),
        remote_items_run(remote_begin(layout, urls), items) matches Some((state, action)) && {
            &&& state.result == item_entries(items)
            &&& state.urls == urls
            &&& state.layout == layout
            &&& items.len() < count ==> state.phase == (RemotePhase::Fetching {
                index: items.len(),
            }) && action == (RemoteActionModel::Fetch { url: urls[items.len() as int] })
            &&& items.len() == count ==> state.phase is Finished && action == (
                RemoteActionModel::Respond { body: report_json(item_entries(items)) })
        },
{
    lemma_items_are_recorded(layout, urls, items);
    assert(Seq::<EntryModel>::empty() + item_entries(items) =~= item_entries(items));
    lemma_recorded_all_appends(Seq::empty(), item_entries(items));
    if items.len() < count {
        assert(urls[items.len() as int].len() > 0);
    }
}

/// The report is given only when the machine turns to the end of the
/// batch, with what was recorded until then; a request that is aborted is
/// aborted for good: neither a finished nor a failed upload takes any
/// event, so nothing follows an `Abort`.
pub proof fn lemma_no_report_after_failure(s: RemoteModel, event: RemoteEventModel, name: Seq<char>)
    ensures
        s.phase is Finished || s.phase is Failed ==> remote_step(s, event, name) is None,
        remote_step(s, event, name) matches Some((next, action)) ==> {
            &&& action is Respond <==> next.phase is Finished
            &&& action is Abort <==> next.phase is Failed
            &&& action is Respond ==> s.phase is Writing
            &&& action matches RemoteActionModel::Respond { body } ==> body == report_json(
                next.result,
            )
            &&& next.layout == s.layout
            &&& next.urls == s.urls
        },
{
}

/// An entry is recorded only when a write is reported, that is once the
/// thumbnail is in place and the body has been written: no other step
/// changes what is recorded.
pub proof fn lemma_only_complete_entries_are_recorded(
    s: RemoteModel,
    event: RemoteEventModel,
    name: Seq<char>,
)
    ensures
        remote_step(s, event, name) matches Some((next, _)) ==> {
            ||| next.result == s.result
            ||| s.phase is Writing && event is Written && next.result == recorded(
                s.result,
                EntryModel {
                    name: s.phase->Writing_name,
                    full: event->Written_size,
                    thumb: s.phase->thumb,
                },
            )
        },
{
}

/// A body of which the decoder makes no picture, or one without pixels,
/// aborts the request, as does a fetch that fails.
pub proof fn lemma_bad_item_aborts(s: RemoteModel, picture: Option<(int, int)>, name: Seq<char>)
    ensures
        s.phase is Decoding && !is_picture(picture) ==> remote_step(
            s,
            RemoteEventModel::Decoded { picture },
            name,
        ) == Some(remote_failed(s, IngestError::ImageDecode)),
        s.phase is Fetching ==> remote_step(s, RemoteEventModel::FetchFailed, name) == Some(
            remote_failed(s, IngestError::Fetch),
        ),
{
}

} // verus!
