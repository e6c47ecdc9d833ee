//! The control socket's requests and replies.

use vstd::prelude::*;

use crate::encoding;
use crate::encoding::Base64Error;
use crate::json::{Fields, Json, JsonV};
use crate::mux::{MuxError, Spawn};
use crate::node::{PaneId, ScreenId, SurfaceId, WorkspaceId};
use crate::ratio::Ratio;
use crate::text;

verus! {

pub const PROTOCOL_VERSION: u64 = 6;

/// One request.
#[allow(inconsistent_fields)]
#[derive(Debug)]
pub enum Command {
    Identify,
    ListWorkspaces,
    /// Types text, then raw bytes that come as base64.
    Send { surface: SurfaceId, text: Option<String>, bytes: Option<String> },
    ReadScreen { surface: SurfaceId },
    /// A replay of the surface's current state.
    VtState { surface: SurfaceId },
    /// A tab in a pane, the active one by default.
    NewTab { pane: Option<PaneId>, cwd: Option<String>, cols: Option<u16>, rows: Option<u16> },
    NewBrowserTab { url: String, pane: Option<PaneId>, cols: Option<u16>, rows: Option<u16> },
    NewWorkspace { name: Option<String>, cols: Option<u16>, rows: Option<u16> },
    /// A screen in a workspace, the active one by default.
    NewScreen { workspace: Option<WorkspaceId>, cols: Option<u16>, rows: Option<u16> },
    /// `dir` is "right" or "down".
    Split { pane: PaneId, dir: String, cols: Option<u16>, rows: Option<u16> },
    /// `dir` is "right" or "down".
    SetRatio { pane: PaneId, dir: String, ratio: Ratio },
    MoveTab { surface: SurfaceId, pane: PaneId, index: usize },
    MoveWorkspace { workspace: WorkspaceId, index: usize },
    SetDefaultColors { fg: Option<String>, bg: Option<String> },
    CloseSurface { surface: SurfaceId },
    ClosePane { pane: PaneId },
    CloseScreen { screen: ScreenId },
    CloseWorkspace { workspace: WorkspaceId },
    /// An empty name clears it.
    RenamePane { pane: PaneId, name: String },
    /// An empty name clears it.
    RenameSurface { surface: SurfaceId, name: String },
    /// An empty name clears it.
    RenameScreen { screen: ScreenId, name: String },
    RenameWorkspace { workspace: WorkspaceId, name: String },
    ResizeSurface { surface: SurfaceId, cols: u16, rows: u16 },
    FocusPane { pane: PaneId },
    /// A tab of a pane, the active one by default.
    SelectTab { pane: Option<PaneId>, index: Option<usize>, delta: Option<isize> },
    /// A screen of the active workspace.
    SelectScreen { index: Option<usize>, delta: Option<isize> },
    SelectWorkspace { index: Option<usize>, delta: Option<isize> },
    /// Streams events on the connection.
    Subscribe,
    /// Streams a surface: its state, then its output.
    AttachSurface { surface: SurfaceId },
    /// Scrolls a surface's viewport; negative is up.
    ScrollSurface { surface: SurfaceId, delta: isize },
}

/// Why a request was refused.
#[derive(Debug)]
pub enum CommandError {
    Mux(MuxError),
    UnknownScreen(ScreenId),
    UnknownSplit(PaneId),
    UnknownSurfaceOrPane,
    NoWorkspace,
    NotPty,
    BrowserAttach,
    BadDir(String),
    BadColor(String),
    BadBase64(Base64Error),
}

impl CommandError {
    pub open spec fn text(self) -> Seq<char> {
        match self {
            CommandError::Mux(error) => error.text(),
            CommandError::UnknownScreen(id) => "unknown screen "@ + text::decimal(id as nat),
            CommandError::UnknownSplit(id) => "unknown pane/split "@ + text::decimal(id as nat),
            CommandError::UnknownSurfaceOrPane => "unknown surface/pane"@,
            CommandError::NoWorkspace => "unknown workspace"@,
            CommandError::NotPty => "browser surface does not support PTY/VT socket commands"@,
            CommandError::BrowserAttach => "browser panes are not supported over attach yet"@,
            CommandError::BadDir(dir) => "bad dir "@ + encoding::quoted(dir@)
                + " (want \"right\" or \"down\")"@,
            CommandError::BadColor(value) => "bad color "@ + encoding::quoted(value@)
                + " (want \"#rrggbb\")"@,
            CommandError::BadBase64(error) => error.text(),
        }
    }

    pub fn message(&self) -> (message: String)
        ensures
            message@ == self.text(),
    {
        match self {
            CommandError::Mux(error) => error.message(),
            CommandError::UnknownScreen(id) => text::with_number("unknown screen ", *id),
            CommandError::UnknownSplit(id) => text::with_number("unknown pane/split ", *id),
            CommandError::UnknownSurfaceOrPane => "unknown surface/pane".to_owned(),
            CommandError::NoWorkspace => "unknown workspace".to_owned(),
            CommandError::NotPty =>
                "browser surface does not support PTY/VT socket commands".to_owned(),
            CommandError::BrowserAttach =>
                "browser panes are not supported over attach yet".to_owned(),
            CommandError::BadDir(dir) => text::concat(
                text::concat("bad dir ", encoding::quote(dir.as_str()).as_str()).as_str(),
                " (want \"right\" or \"down\")",
            ),
            CommandError::BadColor(value) => text::concat(
                text::concat("bad color ", encoding::quote(value.as_str()).as_str()).as_str(),
                " (want \"#rrggbb\")",
            ),
            CommandError::BadBase64(error) => error.message(),
        }
    }
}

/// Work that a request needs from outside of the session.
#[derive(Debug)]
pub enum Work {
    /// Make a surface and attach it.
    Spawn(Spawn),
    /// Type `text`, then `bytes`; where those are no base64, the request
    /// fails after the text.
    Write { surface: SurfaceId, text: Option<String>, bytes: Option<Result<Vec<u8>, Base64Error>> },
    ReadScreen(SurfaceId),
    VtState(SurfaceId),
    Scroll { surface: SurfaceId, delta: isize },
    Subscribe,
    Attach(SurfaceId),
}

/// The mathematical value of a [`Work`].
#[verifier::ext_equal]
pub enum WorkV {
    Spawn(Spawn),
    Write { surface: SurfaceId, text: Option<String>, bytes: Option<Result<Seq<u8>, Base64Error>> },
    ReadScreen(SurfaceId),
    VtState(SurfaceId),
    Scroll { surface: SurfaceId, delta: isize },
    Subscribe,
    Attach(SurfaceId),
}

/// How a request is answered.
#[derive(Debug)]
pub enum Reply {
    /// With this.
    Done(Json),
    /// With the outcome of this.
    Perform(Work),
}

/// The mathematical value of a [`Reply`].
#[verifier::ext_equal]
pub enum ReplyV {
    Done(JsonV),
    Perform(WorkV),
}

impl View for Work {
    type V = WorkV;

    open spec fn view(&self) -> WorkV {
        match *self {
            Work::Spawn(spawn) => WorkV::Spawn(spawn),
            Work::Write { surface, text, bytes } => WorkV::Write {
                surface,
                text,
                bytes: match bytes {
                    Some(Ok(raw)) => Some(Ok(raw@)),
                    Some(Err(error)) => Some(Err(error)),
                    None => None,
                },
            },
            Work::ReadScreen(surface) => WorkV::ReadScreen(surface),
            Work::VtState(surface) => WorkV::VtState(surface),
            Work::Scroll { surface, delta } => WorkV::Scroll { surface, delta },
            Work::Subscribe => WorkV::Subscribe,
            Work::Attach(surface) => WorkV::Attach(surface),
        }
    }
}

impl View for Reply {
    type V = ReplyV;

    open spec fn view(&self) -> ReplyV {
        match *self {
            Reply::Done(json) => ReplyV::Done(json@),
            Reply::Perform(work) => ReplyV::Perform(work@),
        }
    }
}

/// One response line; `id` is the request's, whatever it is.
#[derive(Debug)]
pub struct Response<I> {
    pub id: Option<I>,
    pub ok: bool,
    pub data: Option<Json>,
    pub error: Option<String>,
}

/// A request that got through is answered with its data or its error.
pub fn respond<I>(id: Option<I>, outcome: Result<Json, String>) -> (response: Response<I>)
    ensures
        response.id == id,
        response.ok == (outcome is Ok),
        match outcome {
            Ok(data) => response.data == Some(data) && response.error is None,
            Err(error) => response.data is None && response.error == Some(error),
        },
{
    match outcome {
        Ok(data) => Response { id, ok: true, data: Some(data), error: None },
        Err(error) => Response { id, ok: false, data: None, error: Some(error) },
    }
}

/// A line that is no request is answered without an id.
pub fn bad_request<I>(error: &str) -> (response: Response<I>)
    ensures
        response.id is None,
        !response.ok,
        response.data is None,
        response.error is Some,
        response.error->0@ == "bad request: "@ + error@,
{
    Response {
        id: None,
        ok: false,
        data: None,
        error: Some(text::concat("bad request: ", error)),
    }
}

/// A line without anything on it gets no response.
pub fn is_blank(line: &str) -> (blank: bool)
    ensures
        blank == (text::trimmed(line@).len() == 0),
{
    text::trim(line).as_str().is_empty()
}

/// The fields of a response: those that are absent are left out.
pub open spec fn response_fields<I>(response: Response<I>) -> Seq<(Seq<char>, JsonV)> {
    let ok = seq![("ok"@, JsonV::Bool(response.ok))];
    let data = match response.data {
        Some(data) => seq![("data"@, data@)],
        None => seq![],
    };
    let error = match response.error {
        Some(error) => seq![("error"@, JsonV::Text(error@))],
        None => seq![],
    };
    ok + data + error
}

impl<I> Response<I> {
    /// The response without its id, which goes in front as it came.
    pub fn into_parts(self) -> (parts: (Option<I>, Fields))
        ensures
            parts.0 == self.id,
            parts.1@ == response_fields(self),
    {
        let ghost whole = self;
        let mut fields = Fields::new();
        fields.put("ok", Json::Bool(self.ok));
        if let Some(data) = self.data {
            fields.put("data", data);
        }
        if let Some(error) = self.error {
            fields.put("error", Json::Text(error));
        }
        assert(fields@ =~= response_fields(whole));
        (self.id, fields)
    }
}

} // verus!
