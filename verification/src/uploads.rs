//! Uploads: from the form to the file, its metadata and its announcement.
//!
//! The work on files and on the broker is done elsewhere. This module says what is to be done next, and
//! is told how it went.
use crate::extractors::BasicAuth;
use crate::json;
use crate::paths;
use crate::publish_rabbit;
use crate::publish_rabbit::ReadyEvent;
use crate::push_consumer;
use crate::pypi_push;
use crate::pypi_push::{DistError, DistOutcome, PyDistFile};
use crate::routes;
use crate::storage;
use crate::storage::{MetadataView, PackageMetadata};
use crate::text;
use vstd::prelude::*;

verus! {

/// An upload form. The name of the content's file is as the client sent it.
#[derive(Debug)]
pub struct UploadForm {
    pub action: String,
    pub content: Option<UploadContent>,
    pub name: Option<String>,
    pub version: Option<String>,
    pub summary: Option<String>,
    pub author: Option<String>,
    pub license: Option<String>,
    pub requires_python: Option<String>,
    pub classifiers: Vec<String>,
    pub requires_dist: Vec<String>,
}

/// The content of an upload form.
#[derive(Debug)]
pub struct UploadContent {
    pub raw_name: Option<String>,
}

/// The name under which an upload form's content comes, where there is one.
pub open spec fn content_name(content: Option<UploadContent>) -> Option<Seq<char>> {
    match content {
        Some(c) => text::opt_text(c.raw_name),
        None => None,
    }
}

/// A list, where it is not empty.
pub open spec fn some_texts(v: Seq<String>) -> Option<Seq<Seq<char>>> {
    if v.len() == 0 {
        None
    } else {
        Some(text::texts(v))
    }
}

/// The metadata in an upload form.
pub open spec fn form_metadata(form: UploadForm) -> storage::MetadataView {
    storage::MetadataView {
        name: text::opt_text(form.name),
        version: text::opt_text(form.version),
        summary: text::opt_text(form.summary),
        author: text::opt_text(form.author),
        license: text::opt_text(form.license),
        requires_python: text::opt_text(form.requires_python),
        classifiers: some_texts(form.classifiers@),
        requires_dist: some_texts(form.requires_dist@),
    }
}

/// A list, where it is not empty.
fn non_empty(v: &Vec<String>) -> (r: Option<Vec<String>>)
    ensures
        storage::opt_texts(r) == some_texts(v@),
        r is None <==> v@.len() == 0,
        r matches Some(t) ==> text::texts(t@) == text::texts(v@),
{
    if v.len() == 0 {
        None
    } else {
        Some(text::copy_texts(v))
    }
}

/// The metadata in an upload form, which go into the file's sidecar. Empty lists say nothing.
pub fn metadata_of(form: &UploadForm) -> (r: PackageMetadata)
    ensures
        r@ == form_metadata(*form),
        text::opt_text(r.name) == text::opt_text(form.name),
        text::opt_text(r.version) == text::opt_text(form.version),
        text::opt_text(r.summary) == text::opt_text(form.summary),
        text::opt_text(r.author) == text::opt_text(form.author),
        text::opt_text(r.license) == text::opt_text(form.license),
        text::opt_text(r.requires_python) == text::opt_text(form.requires_python),
        r.classifiers is None <==> form.classifiers@.len() == 0,
        r.classifiers matches Some(v) ==> text::texts(v@) == text::texts(form.classifiers@),
        r.requires_dist is None <==> form.requires_dist@.len() == 0,
        r.requires_dist matches Some(v) ==> text::texts(v@) == text::texts(form.requires_dist@),
{
    PackageMetadata {
        name: text::copy_opt(&form.name),
        version: text::copy_opt(&form.version),
        summary: text::copy_opt(&form.summary),
        author: text::copy_opt(&form.author),
        license: text::copy_opt(&form.license),
        requires_python: text::copy_opt(&form.requires_python),
        classifiers: non_empty(&form.classifiers),
        requires_dist: non_empty(&form.requires_dist),
    }
}

/// What becomes of a stored file with regard to the public index.
#[derive(Debug)]
pub enum Announcement {
    /// The file is announced.
    Publish(ReadyEvent),
    /// The project is not on the list.
    NotListed,
    /// The file's metadata do not name a project.
    NoName,
    /// The file cannot be read.
    Unreadable(DistError),
}

/// Decides whether a stored file is announced, given what reading it gave and the list of projects.
/// The project's name is the one in the file's own metadata, which is also what the consumer of the
/// announcement sees.
pub fn announcement(
    dist: Result<PyDistFile, DistError>,
    filename: &str,
    list: &Option<String>,
) -> (r: Announcement)
    ensures
        match dist {
            Err(e) => r == Announcement::Unreadable(e),
            Ok(d) => {
                let single = d@.metadata.single;
                if !single.contains_key("Name"@) {
                    r is NoName
                } else if !routes::on_sync_list(single["Name"@], text::opt_text(*list)) {
                    r is NotListed
                } else {
                    &&& r is Publish
                    &&& r->Publish_0.routing_key@ == publish_rabbit::routing_key_for(single["Name"@])
                    &&& r->Publish_0.body@ == json::object_text(
                        publish_rabbit::event_members(single["Name"@], filename@),
                    )
                    &&& push_consumer::announced(
                        vstd::utf8::encode_utf8(r->Publish_0.body@),
                    ) == Ok::<Seq<char>, push_consumer::EventErrorView>(filename@)
                }
            },
        },
{
    match dist {
        Err(e) => Announcement::Unreadable(e),
        Ok(d) => match d.metadata.single.get("Name") {
            None => Announcement::NoName,
            Some(project) => {
                if routes::should_sync_to_public_registry(project, list) {
                    Announcement::Publish(publish_rabbit::ready_event(project, filename))
                } else {
                    Announcement::NotListed
                }
            },
        },
    }
}

/// What is to be done next about an upload.
#[derive(Debug)]
pub enum UploadAction {
    /// See whether there is something at the path.
    LookFor(String),
    /// Store the content at the path.
    Store(String),
    /// Write the metadata to the path. A failure does not count.
    WriteSidecar { path: String, metadata: PackageMetadata },
    /// Read the distribution file at the path.
    Read(String),
    /// Send the event. A failure does not count.
    Publish(ReadyEvent),
    /// Answer the request: with nothing, or with a status.
    Answer(Result<(), u16>),
}

/// What an `UploadAction` holds.
pub enum ActionView {
    LookFor(Seq<char>),
    Store(Seq<char>),
    WriteSidecar { path: Seq<char>, metadata: MetadataView },
    Read(Seq<char>),
    Publish { routing_key: Seq<char>, body: Seq<char> },
    Answer(Result<(), u16>),
}

impl View for UploadAction {
    type V = ActionView;

    open spec fn view(&self) -> ActionView {
        match self {
            UploadAction::LookFor(path) => ActionView::LookFor(path@),
            UploadAction::Store(path) => ActionView::Store(path@),
            UploadAction::WriteSidecar { path, metadata } => ActionView::WriteSidecar {
                path: path@,
                metadata: metadata@,
            },
            UploadAction::Read(path) => ActionView::Read(path@),
            UploadAction::Publish(event) => ActionView::Publish {
                routing_key: event.routing_key@,
                body: event.body@,
            },
            UploadAction::Answer(r) => ActionView::Answer(*r),
        }
    }
}

/// How the last action went.
pub enum UploadEvent {
    /// Whether there is something at the path.
    Looked(bool),
    /// Whether the content was stored.
    Stored(bool),
    /// The metadata were written, or not.
    SidecarWritten,
    /// What reading the file gave, or nothing where the reader itself broke down.
    Parsed(Option<Result<PyDistFile, DistError>>),
    /// The event was sent, or not.
    Published,
}

/// What an `UploadEvent` holds.
pub enum EventView {
    Looked(bool),
    Stored(bool),
    SidecarWritten,
    Parsed(Option<DistOutcome>),
    Published,
}

impl View for UploadEvent {
    type V = EventView;

    open spec fn view(&self) -> EventView {
        match self {
            UploadEvent::Looked(there) => EventView::Looked(*there),
            UploadEvent::Stored(done) => EventView::Stored(*done),
            UploadEvent::SidecarWritten => EventView::SidecarWritten,
            UploadEvent::Parsed(Some(r)) => EventView::Parsed(Some(pypi_push::outcome(*r))),
            UploadEvent::Parsed(None) => EventView::Parsed(None),
            UploadEvent::Published => EventView::Published,
        }
    }
}

/// How far an upload has come.
#[derive(Debug)]
pub enum UploadState {
    Looking { filename: String, path: String, metadata: PackageMetadata },
    Storing { filename: String, path: String, metadata: PackageMetadata },
    Describing { filename: String, path: String },
    Reading { filename: String },
    Announcing,
    Finished,
}

/// What an `UploadState` holds.
pub enum StateView {
    Looking { filename: Seq<char>, path: Seq<char>, metadata: MetadataView },
    Storing { filename: Seq<char>, path: Seq<char>, metadata: MetadataView },
    Describing { filename: Seq<char>, path: Seq<char> },
    Reading { filename: Seq<char> },
    Announcing,
    Finished,
}

impl View for UploadState {
    type V = StateView;

    open spec fn view(&self) -> StateView {
        match self {
            UploadState::Looking { filename, path, metadata } => StateView::Looking {
                filename: filename@,
                path: path@,
                metadata: metadata@,
            },
            UploadState::Storing { filename, path, metadata } => StateView::Storing {
                filename: filename@,
                path: path@,
                metadata: metadata@,
            },
            UploadState::Describing { filename, path } => StateView::Describing {
                filename: filename@,
                path: path@,
            },
            UploadState::Reading { filename } => StateView::Reading { filename: filename@ },
            UploadState::Announcing => StateView::Announcing,
            UploadState::Finished => StateView::Finished,
        }
    }
}

/// The end of an upload.
pub open spec fn answered(r: Result<(), u16>) -> (StateView, ActionView) {
    (StateView::Finished, ActionView::Answer(r))
}

/// The refusal of an upload.
pub open spec fn refused(status: u16) -> (StateView, ActionView) {
    answered(Err(status))
}

/// How an upload begins, for a form with the given action, file name and metadata, where the packages
/// lie in `dir`: the file is to be stored under its own name. The actions `verify` and `submit` are
/// ignored, which is no error; any other action, a form without a named file, and a name with a path
/// separator are refused.
pub open spec fn first_step(
    action: Seq<char>,
    filename: Option<Seq<char>>,
    metadata: MetadataView,
    dir: Seq<char>,
) -> (StateView, ActionView) {
    if action != "file_upload"@ {
        if action == "verify"@ || action == "submit"@ {
            answered(Ok(()))
        } else {
            refused(routes::BAD_REQUEST)
        }
    } else {
        match filename {
            None => refused(routes::BAD_REQUEST),
            Some(name) => if paths::separated(name) {
                refused(routes::BAD_REQUEST)
            } else {
                let path = paths::path_in(dir, name);
                (StateView::Looking { filename: name, path, metadata }, ActionView::LookFor(path))
            },
        }
    }
}

/// The name of the project that a stored file is announced for, where it is: the one in the file's own
/// metadata, if it is on the list.
pub open spec fn announced_project(
    dist: DistOutcome,
    list: Option<Seq<char>>,
) -> Option<Seq<char>> {
    match dist {
        Err(_) => None,
        Ok(d) => if d.metadata.single.contains_key("Name"@) && routes::on_sync_list(
            d.metadata.single["Name"@],
            list,
        ) {
            Some(d.metadata.single["Name"@])
        } else {
            None
        },
    }
}

/// What follows on an event. A file that is there already is not overwritten; what cannot be stored is
/// not announced; what cannot be read, or is not on the list, is stored all the same. An event that
/// does not belong to the state ends the upload.
pub open spec fn step(state: StateView, event: EventView, list: Option<Seq<char>>) -> (
    StateView,
    ActionView,
) {
    match (state, event) {
        (StateView::Looking { filename, path, metadata }, EventView::Looked(there)) => {
            if there {
                refused(routes::CONFLICT)
            } else {
                (StateView::Storing { filename, path, metadata }, ActionView::Store(path))
            }
        },
        (StateView::Storing { filename, path, metadata }, EventView::Stored(done)) => {
            if done {
                (
                    StateView::Describing { filename, path },
                    ActionView::WriteSidecar { path: storage::sidecar(path), metadata },
                )
            } else {
                refused(routes::INTERNAL_SERVER_ERROR)
            }
        },
        (StateView::Describing { filename, path }, EventView::SidecarWritten) => {
            (StateView::Reading { filename }, ActionView::Read(path))
        },
        (StateView::Reading { filename }, EventView::Parsed(parsed)) => match parsed {
            None => refused(routes::INTERNAL_SERVER_ERROR),
            Some(dist) => match announced_project(dist, list) {
                None => answered(Ok(())),
                Some(project) => (
                    StateView::Announcing,
                    ActionView::Publish {
                        routing_key: publish_rabbit::routing_key_for(project),
                        body: json::object_text(publish_rabbit::event_members(project, filename)),
                    },
                ),
            },
        },
        (StateView::Announcing, EventView::Published) => answered(Ok(())),
        _ => refused(routes::INTERNAL_SERVER_ERROR),
    }
}

/// Begins an upload.
pub fn upload(form: &UploadForm, _auth: BasicAuth, dir: &str) -> (r: (UploadState, UploadAction))
    ensures
        (r.0@, r.1@) == first_step(
            form.action@,
            content_name(form.content),
            form_metadata(*form),
            dir@,
        ),
        form.action@ == "file_upload"@ ==> match form.content {
            Some(UploadContent { raw_name: Some(name) }) => if name@.contains('/') || name@.contains(
                '\\',
            ) {
                r.1 == UploadAction::Answer(Err(400))
            } else {
                &&& r.0 is Looking && r.1 is LookFor
                &&& r.0->Looking_filename@ == name@
                &&& r.0->Looking_path@ == r.1->LookFor_0@
                &&& r.1->LookFor_0@ == (if dir@.len() == 0 || dir@.last() == '/' {
                    dir@ + name@
                } else {
                    dir@ + "/"@ + name@
                })
            },
            _ => r.1 == UploadAction::Answer(Err(400)),
        },
{
    if !text::same_text(&form.action, "file_upload") {
        return if text::same_text(&form.action, "verify") || text::same_text(
            &form.action,
            "submit",
        ) {
            (UploadState::Finished, UploadAction::Answer(Ok(())))
        } else {
            (UploadState::Finished, UploadAction::Answer(Err(routes::BAD_REQUEST)))
        };
    }
    let filename: String = match &form.content {
        None => {
            return (UploadState::Finished, UploadAction::Answer(Err(routes::BAD_REQUEST)));
        },
        Some(content) => match &content.raw_name {
            None => {
                return (UploadState::Finished, UploadAction::Answer(Err(routes::BAD_REQUEST)));
            },
            Some(filename) => filename.clone(),
        },
    };
    if paths::has_separator(&filename) {
        return (UploadState::Finished, UploadAction::Answer(Err(routes::BAD_REQUEST)));
    }
    let path = paths::join(dir, &filename);
    let action = UploadAction::LookFor(path.clone());
    (UploadState::Looking { filename, path, metadata: metadata_of(form) }, action)
}

/// Goes on with an upload, given how the last action went and the list of projects.
pub fn advance(state: UploadState, event: UploadEvent, list: &Option<String>) -> (r: (
    UploadState,
    UploadAction,
))
    ensures
        (r.0@, r.1@) == step(state@, event@, text::opt_text(*list)),
        r.1 matches UploadAction::Publish(e) ==> state@ is Reading && push_consumer::announced(
            vstd::utf8::encode_utf8(e.body@),
        ) == Ok::<Seq<char>, push_consumer::EventErrorView>(state@->Reading_filename),
{
    match (state, event) {
        (UploadState::Looking { filename, path, metadata }, UploadEvent::Looked(there)) => {
            if there {
                (UploadState::Finished, UploadAction::Answer(Err(routes::CONFLICT)))
            } else {
                let action = UploadAction::Store(path.clone());
                (UploadState::Storing { filename, path, metadata }, action)
            }
        },
        (UploadState::Storing { filename, path, metadata }, UploadEvent::Stored(done)) => {
            if done {
                let sidecar = storage::sidecar_path(&path);
                (
                    UploadState::Describing { filename, path },
                    UploadAction::WriteSidecar { path: sidecar, metadata },
                )
            } else {
                (UploadState::Finished, UploadAction::Answer(Err(routes::INTERNAL_SERVER_ERROR)))
            }
        },
        (UploadState::Describing { filename, path }, UploadEvent::SidecarWritten) => {
            (UploadState::Reading { filename }, UploadAction::Read(path))
        },
        (UploadState::Reading { filename }, UploadEvent::Parsed(Some(dist))) => {
            match announcement(dist, &filename, list) {
                Announcement::Publish(e) => (UploadState::Announcing, UploadAction::Publish(e)),
                _ => (UploadState::Finished, UploadAction::Answer(Ok(()))),
            }
        },
        (UploadState::Announcing, UploadEvent::Published) => {
            (UploadState::Finished, UploadAction::Answer(Ok(())))
        },
        _ => (UploadState::Finished, UploadAction::Answer(Err(routes::INTERNAL_SERVER_ERROR))),
    }
}

/// How the actions of one upload go: what is there, what works and what the file turns out to be.
pub struct Circumstances {
    pub there: bool,
    pub stored: bool,
    pub parsed: Option<DistOutcome>,
}

/// The event that an action leads to.
pub open spec fn event_after(action: ActionView, c: Circumstances) -> EventView {
    match action {
        ActionView::LookFor(_) => EventView::Looked(c.there),
        ActionView::Store(_) => EventView::Stored(c.stored),
        ActionView::WriteSidecar { path, metadata } => EventView::SidecarWritten,
        ActionView::Read(_) => EventView::Parsed(c.parsed),
        ActionView::Publish { routing_key, body } => EventView::Published,
        ActionView::Answer(_) => EventView::Published,
    }
}

/// How many steps an upload can still take.
pub open spec fn steps_left(state: StateView) -> nat {
    match state {
        StateView::Looking { .. } => 5,
        StateView::Storing { .. } => 4,
        StateView::Describing { .. } => 3,
        StateView::Reading { .. } => 2,
        StateView::Announcing => 1,
        StateView::Finished => 0,
    }
}

/// All the actions of an upload from the given one on, up to the answer.
pub open spec fn actions_from(
    at: (StateView, ActionView),
    c: Circumstances,
    list: Option<Seq<char>>,
) -> Seq<ActionView>
    decreases steps_left(at.0),
{
    if at.0 is Finished {
        seq![at.1]
    } else {
        seq![at.1] + actions_from(step(at.0, event_after(at.1, c), list), c, list)
    }
}

/// How an upload begins: a file is looked for at its place in the directory, under its own name; a form
/// that says `verify` or `submit` is answered with nothing to do; and a form with any other action,
/// without a file's name, or with one that holds a path separator is refused.
pub proof fn law_beginning_of_an_upload(
    action: Seq<char>,
    filename: Option<Seq<char>>,
    metadata: MetadataView,
    dir: Seq<char>,
)
    ensures
        ({
            let begin = first_step(action, filename, metadata, dir);
            let named = filename is Some && !filename->0.contains('/') && !filename->0.contains(
                '\\',
            );
            &&& action == "file_upload"@ && named ==> {
                let path = if dir.len() == 0 || dir.last() == '/' {
                    dir + filename->0
                } else {
                    dir + "/"@ + filename->0
                };
                &&& begin.0 == StateView::Looking { filename: filename->0, path, metadata }
                &&& begin.1 == ActionView::LookFor(path)
            }
            &&& action == "file_upload"@ && !named ==> begin.0 is Finished && begin.1
                == ActionView::Answer(Err(400))
            &&& action == "verify"@ || action == "submit"@ ==> begin.0 is Finished && begin.1
                == ActionView::Answer(Ok(()))
            &&& action != "file_upload"@ && action != "verify"@ && action != "submit"@ ==> begin.0
                is Finished && begin.1 == ActionView::Answer(Err(400))
        }),
{
    reveal_strlit("file_upload");
    reveal_strlit("verify");
    reveal_strlit("submit");
    assert("file_upload"@.len() == 11 && "verify"@.len() == 6 && "submit"@.len() == 6);
}

/// An event that does not belong to how far an upload has come ends it with a fault.
pub proof fn law_unexpected_events(state: StateView, event: EventView, list: Option<Seq<char>>)
    requires
        !(state is Looking && event is Looked),
        !(state is Storing && event is Stored),
        !(state is Describing && event is SidecarWritten),
        !(state is Reading && event is Parsed),
        !(state is Announcing && event is Published),
    ensures
        step(state, event, list).0 is Finished,
        step(state, event, list).1 == ActionView::Answer(Err(500)),
{
}

/// The whole of an upload that is not refused at once, in every case: a file that is there already is
/// left alone and the upload answered with a conflict; a file that cannot be stored is neither
/// described nor read nor announced; a stored file is described, then read, then announced if its own
/// project is on the list, and the answer is good unless the reader breaks down.
pub proof fn law_course_of_an_upload(
    name: Seq<char>,
    metadata: MetadataView,
    dir: Seq<char>,
    c: Circumstances,
    list: Option<Seq<char>>,
)
    requires
        !name.contains('/'),
        !name.contains('\\'),
    ensures
        ({
            let path = paths::path_in(dir, name);
            let begin = first_step("file_upload"@, Some(name), metadata, dir);
            let stored = seq![
                ActionView::LookFor(path),
                ActionView::Store(path),
                ActionView::WriteSidecar { path: path + ".metadata.json"@, metadata },
                ActionView::Read(path),
            ];
            actions_from(begin, c, list) == (if c.there {
                seq![ActionView::LookFor(path), ActionView::Answer(Err(409))]
            } else if !c.stored {
                seq![
                    ActionView::LookFor(path),
                    ActionView::Store(path),
                    ActionView::Answer(Err(500)),
                ]
            } else {
                match c.parsed {
                    None => stored.push(ActionView::Answer(Err(500))),
                    Some(dist) => match announced_project(dist, list) {
                        None => stored.push(ActionView::Answer(Ok(()))),
                        Some(project) => stored.push(
                            ActionView::Publish {
                                routing_key: publish_rabbit::routing_key_for(project),
                                body: json::object_text(
                                    publish_rabbit::event_members(project, name),
                                ),
                            },
                        ).push(ActionView::Answer(Ok(()))),
                    },
                }
            })
        }),
{
    reveal_with_fuel(actions_from, 7);
    let path = paths::path_in(dir, name);
    let begin = first_step("file_upload"@, Some(name), metadata, dir);
    let a = step(begin.0, event_after(begin.1, c), list);
    let b = step(a.0, event_after(a.1, c), list);
    let d = step(b.0, event_after(b.1, c), list);
    let e = step(d.0, event_after(d.1, c), list);
    let f = step(e.0, event_after(e.1, c), list);
    if c.there {
        assert(actions_from(a, c, list) =~= seq![a.1]);
        assert(actions_from(begin, c, list) =~= seq![begin.1, a.1]);
    } else if !c.stored {
        assert(actions_from(b, c, list) =~= seq![b.1]);
        assert(actions_from(a, c, list) =~= seq![a.1, b.1]);
        assert(actions_from(begin, c, list) =~= seq![begin.1, a.1, b.1]);
    } else if e.0 is Finished {
        assert(actions_from(e, c, list) =~= seq![e.1]);
        assert(actions_from(d, c, list) =~= seq![d.1, e.1]);
        assert(actions_from(b, c, list) =~= seq![b.1, d.1, e.1]);
        assert(actions_from(a, c, list) =~= seq![a.1, b.1, d.1, e.1]);
        assert(actions_from(begin, c, list) =~= seq![begin.1, a.1, b.1, d.1, e.1]);
    } else {
        assert(actions_from(f, c, list) =~= seq![f.1]);
        assert(actions_from(e, c, list) =~= seq![e.1, f.1]);
        assert(actions_from(d, c, list) =~= seq![d.1, e.1, f.1]);
        assert(actions_from(b, c, list) =~= seq![b.1, d.1, e.1, f.1]);
        assert(actions_from(a, c, list) =~= seq![a.1, b.1, d.1, e.1, f.1]);
        assert(actions_from(begin, c, list) =~= seq![begin.1, a.1, b.1, d.1, e.1, f.1]);
    }
}

/// Every upload comes to its answer: each event brings it nearer to the end or ends it.
pub proof fn law_uploads_end(state: StateView, event: EventView, list: Option<Seq<char>>)
    ensures
        ({
            let next = step(state, event, list);
            &&& steps_left(next.0) < steps_left(state) || next.0 is Finished
            &&& next.0 is Finished <==> next.1 is Answer
        }),
{
}

} // verus!
