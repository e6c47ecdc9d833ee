//! The session as a frontend sees it: in this process, or attached over the
//! control socket.

use vstd::prelude::*;

use crate::browser;
use crate::browser::clamp_one;
use crate::json::{Fields, Json, JsonV};
use crate::mux::{Mux, MuxError, MuxV, Spawn};
use crate::node::{PaneId, ScreenId, SplitDir, SurfaceId, WorkspaceId};
use crate::protocol::{Command, CommandError, ReplyV, WorkV};
use crate::ratio::Ratio;
use crate::server;
use crate::server::Host;
use crate::surface::SurfaceKind;

verus! {

/// What a frontend asks of the session.
#[allow(inconsistent_fields)]
#[derive(Debug)]
pub enum Request {
    NewWorkspace { size: Option<(u16, u16)> },
    /// In the active workspace.
    NewScreen { size: Option<(u16, u16)> },
    NewTab { pane: Option<PaneId>, size: Option<(u16, u16)> },
    NewBrowserTab { url: String, pane: Option<PaneId>, size: Option<(u16, u16)> },
    Split { pane: PaneId, dir: SplitDir, size: Option<(u16, u16)> },
    SetRatio { pane: PaneId, dir: SplitDir, ratio: Ratio },
    MoveTab { surface: SurfaceId, pane: PaneId, index: usize },
    MoveWorkspace { workspace: WorkspaceId, index: usize },
    CloseSurface { surface: SurfaceId },
    ClosePane { pane: PaneId },
    CloseScreen { screen: ScreenId },
    CloseWorkspace { workspace: WorkspaceId },
    RenameSurface { surface: SurfaceId, name: String },
    RenameScreen { screen: ScreenId, name: String },
    RenameWorkspace { workspace: WorkspaceId, name: String },
    ResizeSurface { surface: SurfaceId, cols: u16, rows: u16 },
    FocusPane { pane: PaneId },
    SelectTab { pane: Option<PaneId>, index: Option<usize>, delta: Option<isize> },
    SelectScreen { index: Option<usize>, delta: Option<isize> },
    SelectWorkspace { index: Option<usize>, delta: Option<isize> },
}

/// Why a session cannot do something.
#[derive(Debug, Clone, Copy, PartialEq, Eq, Structural)]
pub enum SessionError {
    BrowserOverAttach,
}

impl SessionError {
    pub open spec fn text(self) -> Seq<char> {
        "browser panes are not supported over attach yet"@
    }

    pub fn message(&self) -> (message: String)
        ensures
            message@ == self.text(),
    {
        "browser panes are not supported over attach yet".to_owned()
    }
}

pub open spec fn cmd(name: Seq<char>) -> Seq<(Seq<char>, JsonV)> {
    seq![("cmd"@, JsonV::Text(name))]
}

pub open spec fn number_or_null(n: Option<u64>) -> JsonV {
    match n {
        Some(n) => JsonV::Number(n),
        None => JsonV::Null,
    }
}

pub open spec fn index_or_null(n: Option<usize>) -> JsonV {
    match n {
        Some(n) => JsonV::Number(n as u64),
        None => JsonV::Null,
    }
}

pub open spec fn step_or_null(n: Option<isize>) -> JsonV {
    match n {
        Some(n) => JsonV::Integer(n as i64),
        None => JsonV::Null,
    }
}

/// The size fields of a command: none when no size is given.
pub open spec fn size_fields(size: Option<(u16, u16)>) -> Seq<(Seq<char>, JsonV)> {
    match size {
        Some((cols, rows)) => seq![
            ("cols"@, JsonV::Number(cols as u64)),
            ("rows"@, JsonV::Number(rows as u64)),
        ],
        None => seq![],
    }
}

/// The command that asks a remote session for `request`.
pub open spec fn request_fields(request: Request) -> Seq<(Seq<char>, JsonV)> {
    match request {
        Request::NewWorkspace { size } => cmd("new-workspace"@) + size_fields(size),
        Request::NewScreen { size } => cmd("new-screen"@) + size_fields(size),
        Request::NewTab { pane, size } => cmd("new-tab"@).push(("pane"@, number_or_null(pane)))
            + size_fields(size),
        Request::NewBrowserTab { url, pane, size } => cmd("new-browser-tab"@).push(
            ("url"@, JsonV::Text(url@)),
        ).push(("pane"@, number_or_null(pane))) + size_fields(size),
        Request::Split { pane, dir, size } => cmd("split"@).push(
            ("pane"@, JsonV::Number(pane)),
        ).push(("dir"@, JsonV::Text(server::dir_text(dir)))) + size_fields(size),
        Request::SetRatio { pane, dir, ratio } => cmd("set-ratio"@).push(
            ("pane"@, JsonV::Number(pane)),
        ).push(("dir"@, JsonV::Text(server::dir_text(dir)))).push(("ratio"@, JsonV::Ratio(ratio))),
        Request::MoveTab { surface, pane, index } => cmd("move-tab"@).push(
            ("surface"@, JsonV::Number(surface)),
        ).push(("pane"@, JsonV::Number(pane))).push(("index"@, JsonV::Number(index as u64))),
        Request::MoveWorkspace { workspace, index } => cmd("move-workspace"@).push(
            ("workspace"@, JsonV::Number(workspace)),
        ).push(("index"@, JsonV::Number(index as u64))),
        Request::CloseSurface { surface } => cmd("close-surface"@).push(
            ("surface"@, JsonV::Number(surface)),
        ),
        Request::ClosePane { pane } => cmd("close-pane"@).push(("pane"@, JsonV::Number(pane))),
        Request::CloseScreen { screen } => cmd("close-screen"@).push(
            ("screen"@, JsonV::Number(screen)),
        ),
        Request::CloseWorkspace { workspace } => cmd("close-workspace"@).push(
            ("workspace"@, JsonV::Number(workspace)),
        ),
        Request::RenameSurface { surface, name } => cmd("rename-surface"@).push(
            ("surface"@, JsonV::Number(surface)),
        ).push(("name"@, JsonV::Text(name@))),
        Request::RenameScreen { screen, name } => cmd("rename-screen"@).push(
            ("screen"@, JsonV::Number(screen)),
        ).push(("name"@, JsonV::Text(name@))),
        Request::RenameWorkspace { workspace, name } => cmd("rename-workspace"@).push(
            ("workspace"@, JsonV::Number(workspace)),
        ).push(("name"@, JsonV::Text(name@))),
        Request::ResizeSurface { surface, cols, rows } => cmd("resize-surface"@).push(
            ("surface"@, JsonV::Number(surface)),
        ) + size_fields(Some((cols, rows))),
        Request::FocusPane { pane } => cmd("focus-pane"@).push(("pane"@, JsonV::Number(pane))),
        Request::SelectTab { pane, index, delta } => cmd("select-tab"@).push(
            ("pane"@, number_or_null(pane)),
        ).push(("index"@, index_or_null(index))).push(("delta"@, step_or_null(delta))),
        Request::SelectScreen { index, delta } => cmd("select-screen"@).push(
            ("index"@, index_or_null(index)),
        ).push(("delta"@, step_or_null(delta))),
        Request::SelectWorkspace { index, delta } => cmd("select-workspace"@).push(
            ("index"@, index_or_null(index)),
        ).push(("delta"@, step_or_null(delta))),
    }
}

fn command(name: &'static str) -> (fields: Fields)
    ensures
        fields@ == cmd(name@),
{
    let mut fields = Fields::new();
    fields.put_text("cmd", name);
    assert(fields@ =~= cmd(name@));
    fields
}

/// Adds optional size fields to a command.
fn with_size(fields: &mut Fields, size: Option<(u16, u16)>)
    ensures
        final(fields)@ == old(fields)@ + size_fields(size),
{
    if let Some((cols, rows)) = size {
        fields.put_number("cols", cols as u64);
        fields.put_number("rows", rows as u64);
    }
    assert(fields@ =~= old(fields)@ + size_fields(size));
}

fn put_dir(fields: &mut Fields, dir: SplitDir)
    ensures
        final(fields)@ == old(fields)@.push(("dir"@, JsonV::Text(server::dir_text(dir)))),
{
    fields.put_text(
        "dir",
        match dir {
            SplitDir::Right => "right",
            SplitDir::Down => "down",
        },
    );
}

fn put_optional(fields: &mut Fields, key: &'static str, n: Option<u64>)
    ensures
        final(fields)@ == old(fields)@.push((key@, number_or_null(n))),
{
    match n {
        Some(n) => fields.put_number(key, n),
        None => fields.put(key, Json::Null),
    }
}

fn put_selection(fields: &mut Fields, index: Option<usize>, delta: Option<isize>)
    ensures
        final(fields)@ == old(fields)@.push(("index"@, index_or_null(index))).push(
            ("delta"@, step_or_null(delta)),
        ),
{
    match index {
        Some(n) => fields.put_number("index", n as u64),
        None => fields.put("index", Json::Null),
    }
    match delta {
        Some(n) => fields.put("delta", Json::Integer(n as i64)),
        None => fields.put("delta", Json::Null),
    }
}

/// The command that asks a remote session for `request`.
pub fn request_json(request: &Request) -> (command: Json)
    ensures
        command@ == JsonV::Record(request_fields(*request)),
{
    let fields = match request {
        Request::NewWorkspace { size } => {
            let mut fields = command("new-workspace");
            with_size(&mut fields, *size);
            fields
        },
        Request::NewScreen { size } => {
            let mut fields = command("new-screen");
            with_size(&mut fields, *size);
            fields
        },
        Request::NewTab { pane, size } => {
            let mut fields = command("new-tab");
            put_optional(&mut fields, "pane", *pane);
            with_size(&mut fields, *size);
            fields
        },
        Request::NewBrowserTab { url, pane, size } => {
            let mut fields = command("new-browser-tab");
            fields.put_text("url", url.as_str());
            put_optional(&mut fields, "pane", *pane);
            with_size(&mut fields, *size);
            fields
        },
        Request::Split { pane, dir, size } => {
            let mut fields = command("split");
            fields.put_number("pane", *pane);
            put_dir(&mut fields, *dir);
            with_size(&mut fields, *size);
            fields
        },
        Request::SetRatio { pane, dir, ratio } => {
            let mut fields = command("set-ratio");
            fields.put_number("pane", *pane);
            put_dir(&mut fields, *dir);
            fields.put("ratio", Json::Ratio(*ratio));
            fields
        },
        Request::MoveTab { surface, pane, index } => {
            let mut fields = command("move-tab");
            fields.put_number("surface", *surface);
            fields.put_number("pane", *pane);
            fields.put_number("index", *index as u64);
            fields
        },
        Request::MoveWorkspace { workspace, index } => {
            let mut fields = command("move-workspace");
            fields.put_number("workspace", *workspace);
            fields.put_number("index", *index as u64);
            fields
        },
        Request::CloseSurface { surface } => {
            let mut fields = command("close-surface");
            fields.put_number("surface", *surface);
            fields
        },
        Request::ClosePane { pane } => {
            let mut fields = command("close-pane");
            fields.put_number("pane", *pane);
            fields
        },
        Request::CloseScreen { screen } => {
            let mut fields = command("close-screen");
            fields.put_number("screen", *screen);
            fields
        },
        Request::CloseWorkspace { workspace } => {
            let mut fields = command("close-workspace");
            fields.put_number("workspace", *workspace);
            fields
        },
        Request::RenameSurface { surface, name } => {
            let mut fields = command("rename-surface");
            fields.put_number("surface", *surface);
            fields.put_text("name", name.as_str());
            fields
        },
        Request::RenameScreen { screen, name } => {
            let mut fields = command("rename-screen");
            fields.put_number("screen", *screen);
            fields.put_text("name", name.as_str());
            fields
        },
        Request::RenameWorkspace { workspace, name } => {
            let mut fields = command("rename-workspace");
            fields.put_number("workspace", *workspace);
            fields.put_text("name", name.as_str());
            fields
        },
        Request::ResizeSurface { surface, cols, rows } => {
            let mut fields = command("resize-surface");
            fields.put_number("surface", *surface);
            with_size(&mut fields, Some((*cols, *rows)));
            fields
        },
        Request::FocusPane { pane } => {
            let mut fields = command("focus-pane");
            fields.put_number("pane", *pane);
            fields
        },
        Request::SelectTab { pane, index, delta } => {
            let mut fields = command("select-tab");
            put_optional(&mut fields, "pane", *pane);
            put_selection(&mut fields, *index, *delta);
            fields
        },
        Request::SelectScreen { index, delta } => {
            let mut fields = command("select-screen");
            put_selection(&mut fields, *index, *delta);
            fields
        },
        Request::SelectWorkspace { index, delta } => {
            let mut fields = command("select-workspace");
            put_selection(&mut fields, *index, *delta);
            fields
        },
    };
    fields.record()
}

/// `request` turns the session `before` into `after`, and asks for a surface
/// or is refused.
pub open spec fn serves(
    before: MuxV,
    request: Request,
    after: MuxV,
    outcome: Result<Option<Spawn>, MuxError>,
) -> bool {
    let none = Ok::<Option<Spawn>, MuxError>(None);
    match request {
        Request::NewWorkspace { size } => asks(
            before,
            Ok(before.workspace_spawn(None, size)),
            after,
            outcome,
        ),
        Request::NewScreen { size } => asks(before, before.screen_request(None, size), after, outcome),
        Request::NewTab { pane, size } => asks(
            before,
            before.tab_request(pane, None, size),
            after,
            outcome,
        ),
        Request::NewBrowserTab { url, pane, size } => asks(
            before,
            before.browser_request(url, pane, size),
            after,
            outcome,
        ),
        Request::Split { pane, dir, size } => asks(
            before,
            Ok(before.split_request(pane, dir, size)),
            after,
            outcome,
        ),
        Request::SetRatio { pane, dir, ratio } => after == before.ratio_set(pane, dir, ratio)
            && outcome == none,
        Request::MoveTab { surface, pane, index } => after == before.tab_moved(
            surface,
            pane,
            index as int,
        ) && outcome == none,
        Request::MoveWorkspace { workspace, index } => after == before.workspace_moved(
            workspace,
            index as int,
        ) && outcome == none,
        Request::CloseSurface { surface } => after == before.closed(surface) && outcome == none,
        Request::ClosePane { pane } => after == before.pane_closed(pane) && outcome == none,
        Request::CloseScreen { screen } => after == before.screen_closed(screen) && outcome == none,
        Request::CloseWorkspace { workspace } => after == before.workspace_closed(workspace)
            && outcome == none,
        Request::RenameSurface { surface, name } => after == before.surface_renamed(surface, name)
            && outcome == none,
        Request::RenameScreen { screen, name } => after == before.screen_renamed(screen, name)
            && outcome == none,
        Request::RenameWorkspace { workspace, name } => after == before.workspace_renamed(
            workspace,
            name@,
        ) && outcome == none,
        Request::ResizeSurface { surface, cols, rows } => after == before.resized(
            surface,
            cols,
            rows,
        ).0 && outcome == none,
        Request::FocusPane { pane } => after == before.pane_focused(pane) && outcome == none,
        Request::SelectTab { pane, index, delta } => after == before.tab_selected(
            pane,
            index,
            delta,
        ) && outcome == none,
        Request::SelectScreen { index, delta } => after == before.screen_selected(index, delta)
            && outcome == none,
        Request::SelectWorkspace { index, delta } => after == before.workspace_selected(
            index,
            delta,
        ) && outcome == none,
    }
}

pub open spec fn asks(
    before: MuxV,
    request: Result<Spawn, MuxError>,
    after: MuxV,
    outcome: Result<Option<Spawn>, MuxError>,
) -> bool {
    match request {
        Ok(spawn) => after == before.one_id_used() && outcome == Ok::<Option<Spawn>, MuxError>(
            Some(spawn),
        ),
        Err(error) => after == before && outcome == Err::<Option<Spawn>, MuxError>(error),
    }
}

/// Does what a frontend asks of a session in this process. A surface that is
/// asked for is still to be made and attached.
pub fn serve_request(mux: &mut Mux, request: Request) -> (outcome: Result<Option<Spawn>, MuxError>)
    requires
        old(mux).wf(),
        old(mux)@.ids_left(1),
    ensures
        final(mux).wf(),
        serves(old(mux)@, request, final(mux)@, outcome),
{
    match request {
        Request::NewWorkspace { size } => {
            return Ok(Some(mux.new_workspace(None, size)));
        },
        Request::NewScreen { size } => {
            return match mux.new_screen(None, size) {
                Ok(spawn) => Ok(Some(spawn)),
                Err(error) => Err(error),
            };
        },
        Request::NewTab { pane, size } => {
            return match mux.new_tab(pane, None, size) {
                Ok(spawn) => Ok(Some(spawn)),
                Err(error) => Err(error),
            };
        },
        Request::NewBrowserTab { url, pane, size } => {
            return match mux.new_browser_tab(url, pane, size) {
                Ok(spawn) => Ok(Some(spawn)),
                Err(error) => Err(error),
            };
        },
        Request::Split { pane, dir, size } => {
            return Ok(Some(mux.split(pane, dir, size)));
        },
        Request::SetRatio { pane, dir, ratio } => {
            mux.set_ratio(pane, dir, ratio);
        },
        Request::MoveTab { surface, pane, index } => {
            mux.move_tab(surface, pane, index);
        },
        Request::MoveWorkspace { workspace, index } => {
            mux.move_workspace(workspace, index);
        },
        Request::CloseSurface { surface } => {
            mux.close_surface(surface);
        },
        Request::ClosePane { pane } => {
            mux.close_pane(pane);
        },
        Request::CloseScreen { screen } => {
            mux.close_screen(screen);
        },
        Request::CloseWorkspace { workspace } => {
            mux.close_workspace(workspace);
        },
        Request::RenameSurface { surface, name } => {
            mux.rename_surface(surface, name);
        },
        Request::RenameScreen { screen, name } => {
            mux.rename_screen(screen, name);
        },
        Request::RenameWorkspace { workspace, name } => {
            mux.rename_workspace(workspace, name);
        },
        Request::ResizeSurface { surface, cols, rows } => {
            let _ = mux.resize_surface(surface, cols, rows);
        },
        Request::FocusPane { pane } => {
            mux.focus_pane(pane);
        },
        Request::SelectTab { pane, index, delta } => {
            mux.select_tab(pane, index, delta);
        },
        Request::SelectScreen { index, delta } => {
            mux.select_screen(index, delta);
        },
        Request::SelectWorkspace { index, delta } => {
            mux.select_workspace(index, delta);
        },
    }
    Ok(None)
}

/// Where the session runs.
#[derive(Debug, Clone, Copy, PartialEq, Eq, Structural)]
pub enum Session {
    /// In this process.
    Local,
    /// Behind a control socket.
    Remote,
}

/// How a request is carried out.
#[derive(Debug)]
pub enum Step {
    /// By the session in this process.
    Serve(Request),
    /// By sending a command.
    Send(Json),
}

/// The mathematical value of a [`Step`].
#[verifier::ext_equal]
pub enum StepV {
    Serve(Request),
    Send(JsonV),
}

impl View for Step {
    type V = StepV;

    open spec fn view(&self) -> StepV {
        match *self {
            Step::Serve(request) => StepV::Serve(request),
            Step::Send(command) => StepV::Send(command@),
        }
    }
}

/// How a surface is reached.
#[derive(Debug, Clone, Copy, PartialEq, Eq, Structural)]
pub enum Reach {
    /// In this process.
    Local,
    /// Over a mirror, which is made on first use.
    Mirror,
    /// Not at all: pages are not mirrored.
    RemoteBrowser,
    /// There is no such surface.
    Missing,
}

impl Session {
    /// A session in this process serves a request, a remote one is sent the
    /// command for it.
    pub open spec fn route(self, request: Request) -> StepV {
        match self {
            Session::Local => StepV::Serve(request),
            Session::Remote => StepV::Send(JsonV::Record(request_fields(request))),
        }
    }

    fn step(&self, request: Request) -> (step: Step)
        ensures
            step@ == self.route(request),
    {
        match self {
            Session::Local => Step::Serve(request),
            Session::Remote => Step::Send(request_json(&request)),
        }
    }

    /// Makes sure that there is a workspace to show: a session in this
    /// process gets one, a remote one only when it has none.
    pub fn ensure_initial(&self, size: Option<(u16, u16)>, remote_empty: bool) -> (step: Option<Step>)
        ensures
            step is Some <==> *self == Session::Local || remote_empty,
            step matches Some(step) ==> step@ == self.route(Request::NewWorkspace { size }),
    {
        match self {
            Session::Local => Some(self.step(Request::NewWorkspace { size })),
            Session::Remote => if remote_empty {
                Some(self.step(Request::NewWorkspace { size }))
            } else {
                None
            },
        }
    }

    /// How a surface is reached. `known` says whether this process has it,
    /// `kind` what a remote session says of it.
    pub fn surface_sized(&self, known: bool, kind: SurfaceKind) -> (reach: Reach)
        ensures
            reach == match *self {
                Session::Local => if known {
                    Reach::Local
                } else {
                    Reach::Missing
                },
                Session::Remote => match kind {
                    SurfaceKind::Browser => Reach::RemoteBrowser,
                    SurfaceKind::Pty => Reach::Mirror,
                },
            },
    {
        match self {
            Session::Local => if known {
                Reach::Local
            } else {
                Reach::Missing
            },
            Session::Remote => match kind {
                SurfaceKind::Browser => Reach::RemoteBrowser,
                SurfaceKind::Pty => Reach::Mirror,
            },
        }
    }

    /// Whether a surface that has exited has a mirror to be dropped.
    pub fn forget_surface(&self) -> (drop: bool)
        ensures
            drop == (*self == Session::Remote),
    {
        match self {
            Session::Local => false,
            Session::Remote => true,
        }
    }

    /// Whether the session is told the size of a cell.
    pub fn set_cell_pixel_size(&self) -> (told: bool)
        ensures
            told == (*self == Session::Local),
    {
        match self {
            Session::Local => true,
            Session::Remote => false,
        }
    }

    /// Pages are made in this process only.
    pub fn new_browser_tab(&self, url: String, pane: Option<PaneId>, size: Option<(u16, u16)>) -> (step:
        Result<Step, SessionError>)
        ensures
            match step {
                Ok(step) => *self == Session::Local && step@ == StepV::Serve(
                    Request::NewBrowserTab { url, pane, size },
                ),
                Err(error) => *self == Session::Remote && error == SessionError::BrowserOverAttach,
            },
    {
        match self {
            Session::Local => Ok(Step::Serve(Request::NewBrowserTab { url, pane, size })),
            Session::Remote => Err(SessionError::BrowserOverAttach),
        }
    }

    pub fn new_tab(&self, pane: Option<PaneId>, size: Option<(u16, u16)>) -> (step: Step)
        ensures
            step@ == self.route(Request::NewTab { pane, size }),
    {
        self.step(Request::NewTab { pane, size })
    }

    pub fn new_workspace(&self, size: Option<(u16, u16)>) -> (step: Step)
        ensures
            step@ == self.route(Request::NewWorkspace { size }),
    {
        self.step(Request::NewWorkspace { size })
    }

    /// A screen in the active workspace.
    pub fn new_screen(&self, size: Option<(u16, u16)>) -> (step: Step)
        ensures
            step@ == self.route(Request::NewScreen { size }),
    {
        self.step(Request::NewScreen { size })
    }

    pub fn close_screen(&self, screen: ScreenId) -> (step: Step)
        ensures
            step@ == self.route(Request::CloseScreen { screen }),
    {
        self.step(Request::CloseScreen { screen })
    }

    pub fn rename_screen(&self, screen: ScreenId, name: String) -> (step: Step)
        ensures
            step@ == self.route(Request::RenameScreen { screen, name }),
    {
        self.step(Request::RenameScreen { screen, name })
    }

    pub fn select_screen(&self, index: Option<usize>, delta: Option<isize>) -> (step: Step)
        ensures
            step@ == self.route(Request::SelectScreen { index, delta }),
    {
        self.step(Request::SelectScreen { index, delta })
    }

    pub fn split(&self, pane: PaneId, dir: SplitDir, size: Option<(u16, u16)>) -> (step: Step)
        ensures
            step@ == self.route(Request::Split { pane, dir, size }),
    {
        self.step(Request::Split { pane, dir, size })
    }

    pub fn set_ratio(&self, pane: PaneId, dir: SplitDir, ratio: Ratio) -> (step: Step)
        ensures
            step@ == self.route(Request::SetRatio { pane, dir, ratio }),
    {
        self.step(Request::SetRatio { pane, dir, ratio })
    }

    pub fn move_tab(&self, surface: SurfaceId, pane: PaneId, index: usize) -> (step: Step)
        ensures
            step@ == self.route(Request::MoveTab { surface, pane, index }),
    {
        self.step(Request::MoveTab { surface, pane, index })
    }

    pub fn move_workspace(&self, workspace: WorkspaceId, index: usize) -> (step: Step)
        ensures
            step@ == self.route(Request::MoveWorkspace { workspace, index }),
    {
        self.step(Request::MoveWorkspace { workspace, index })
    }

    pub fn close_surface(&self, surface: SurfaceId) -> (step: Step)
        ensures
            step@ == self.route(Request::CloseSurface { surface }),
    {
        self.step(Request::CloseSurface { surface })
    }

    pub fn close_pane(&self, pane: PaneId) -> (step: Step)
        ensures
            step@ == self.route(Request::ClosePane { pane }),
    {
        self.step(Request::ClosePane { pane })
    }

    pub fn close_workspace(&self, workspace: WorkspaceId) -> (step: Step)
        ensures
            step@ == self.route(Request::CloseWorkspace { workspace }),
    {
        self.step(Request::CloseWorkspace { workspace })
    }

    pub fn rename_surface(&self, surface: SurfaceId, name: String) -> (step: Step)
        ensures
            step@ == self.route(Request::RenameSurface { surface, name }),
    {
        self.step(Request::RenameSurface { surface, name })
    }

    pub fn rename_workspace(&self, workspace: WorkspaceId, name: String) -> (step: Step)
        ensures
            step@ == self.route(Request::RenameWorkspace { workspace, name }),
    {
        self.step(Request::RenameWorkspace { workspace, name })
    }

    pub fn focus_pane(&self, pane: PaneId) -> (step: Step)
        ensures
            step@ == self.route(Request::FocusPane { pane }),
    {
        self.step(Request::FocusPane { pane })
    }

    pub fn select_tab(&self, pane: Option<PaneId>, index: Option<usize>, delta: Option<isize>) -> (step: Step)
        ensures
            step@ == self.route(Request::SelectTab { pane, index, delta }),
    {
        self.step(Request::SelectTab { pane, index, delta })
    }

    pub fn select_workspace(&self, index: Option<usize>, delta: Option<isize>) -> (step: Step)
        ensures
            step@ == self.route(Request::SelectWorkspace { index, delta }),
    {
        self.step(Request::SelectWorkspace { index, delta })
    }
}

/// Whether a client tells the server the size of a surface: after the user
/// did something, whenever the server has another size; else only when the
/// client's own size is not the one it told last.
pub open spec fn resize_needed(
    desired: (u16, u16),
    asserted: Option<(u16, u16)>,
    server: (u16, u16),
    user_interaction: bool,
) -> bool {
    if user_interaction {
        desired != server
    } else {
        asserted != Some(desired)
    }
}

pub fn resize_action(
    desired: (u16, u16),
    asserted: Option<(u16, u16)>,
    server: (u16, u16),
    user_interaction: bool,
) -> (send: bool)
    ensures
        send == resize_needed(desired, asserted, server, user_interaction),
{
    if user_interaction {
        desired.0 != server.0 || desired.1 != server.1
    } else {
        match asserted {
            Some(size) => size.0 != desired.0 || size.1 != desired.1,
            None => true,
        }
    }
}

/// A remote surface that is mirrored here.
#[derive(Debug, Clone, Copy, PartialEq, Eq)]
pub struct RemoteSurface {
    pub id: SurfaceId,
    /// The size that this client told the server last.
    pub asserted: Option<(u16, u16)>,
    /// The size that the server has.
    pub server: (u16, u16),
    pub dirty: bool,
}

/// A surface, as a frontend reaches it.
#[derive(Debug, Clone, Copy, PartialEq, Eq)]
pub enum SurfaceHandle {
    /// In this process; `dirty` when it has something to draw.
    Local { surface: SurfaceId, kind: SurfaceKind, dirty: bool },
    Remote(RemoteSurface),
    RemoteBrowser,
}

impl SurfaceHandle {
    /// The handle and the request that follow from giving the surface a
    /// size, after the user did something or not.
    pub open spec fn sized(self, cols: u16, rows: u16, user_interaction: bool) -> (
        SurfaceHandle,
        Option<Request>,
    ) {
        let cols = browser::at_least_one(cols);
        let rows = browser::at_least_one(rows);
        match self {
            SurfaceHandle::Local { surface, .. } => (
                self,
                Some(Request::ResizeSurface { surface, cols, rows }),
            ),
            SurfaceHandle::Remote(remote) => {
                let send = resize_needed(
                    (cols, rows),
                    remote.asserted,
                    remote.server,
                    user_interaction,
                );
                let told = RemoteSurface { asserted: Some((cols, rows)), ..remote };
                (
                    SurfaceHandle::Remote(
                        if send || user_interaction {
                            told
                        } else {
                            remote
                        },
                    ),
                    if send {
                        Some(Request::ResizeSurface { surface: remote.id, cols, rows })
                    } else {
                        None
                    },
                )
            },
            SurfaceHandle::RemoteBrowser => (self, None),
        }
    }

    pub fn kind(&self) -> (kind: SurfaceKind)
        ensures
            kind == match *self {
                SurfaceHandle::Local { kind, .. } => kind,
                SurfaceHandle::Remote(_) => SurfaceKind::Pty,
                SurfaceHandle::RemoteBrowser => SurfaceKind::Browser,
            },
    {
        match self {
            SurfaceHandle::Local { kind, .. } => *kind,
            SurfaceHandle::Remote(_) => SurfaceKind::Pty,
            SurfaceHandle::RemoteBrowser => SurfaceKind::Browser,
        }
    }

    /// Gives the surface its size after a layout.
    pub fn resize(&mut self, cols: u16, rows: u16) -> (request: Option<Request>)
        ensures
            *final(self) == old(self).sized(cols, rows, false).0,
            request == old(self).sized(cols, rows, false).1,
    {
        self.set_size(cols, rows, false)
    }

    /// Claims the surface's size after the user did something.
    pub fn reassert_size(&mut self, cols: u16, rows: u16) -> (request: Option<Request>)
        ensures
            *final(self) == old(self).sized(cols, rows, true).0,
            request == old(self).sized(cols, rows, true).1,
    {
        self.set_size(cols, rows, true)
    }

    fn set_size(&mut self, cols: u16, rows: u16, user_interaction: bool) -> (request: Option<Request>)
        ensures
            *final(self) == old(self).sized(cols, rows, user_interaction).0,
            request == old(self).sized(cols, rows, user_interaction).1,
    {
        let cols: u16 = clamp_one(cols);
        let rows: u16 = clamp_one(rows);
        match self {
            SurfaceHandle::Local { surface, .. } => Some(
                Request::ResizeSurface { surface: *surface, cols, rows },
            ),
            SurfaceHandle::Remote(remote) => {
                let send = resize_action(
                    (cols, rows),
                    remote.asserted,
                    remote.server,
                    user_interaction,
                );
                if send || user_interaction {
                    remote.asserted = Some((cols, rows));
                }
                if send {
                    Some(Request::ResizeSurface { surface: remote.id, cols, rows })
                } else {
                    None
                }
            },
            SurfaceHandle::RemoteBrowser => None,
        }
    }

    /// Says whether the surface or its mirror has something to draw, and
    /// forgets it.
    pub fn take_dirty(&mut self) -> (dirty: bool)
        ensures
            match *old(self) {
                SurfaceHandle::Local { surface, kind, dirty: mark } => dirty == mark && *final(self)
                    == (SurfaceHandle::Local { surface, kind, dirty: false }),
                SurfaceHandle::Remote(remote) => dirty == remote.dirty && *final(self)
                    == SurfaceHandle::Remote(RemoteSurface { dirty: false, ..remote }),
                SurfaceHandle::RemoteBrowser => !dirty && *final(self) == *old(self),
            },
    {
        match self {
            SurfaceHandle::Local { dirty: mark, .. } => {
                let dirty = *mark;
                *mark = false;
                dirty
            },
            SurfaceHandle::Remote(remote) => {
                let dirty = remote.dirty;
                remote.dirty = false;
                dirty
            },
            SurfaceHandle::RemoteBrowser => false,
        }
    }

    /// The surface whose page takes browser input, which only a surface in
    /// this process has.
    pub fn browser_target(&self) -> (surface: Result<SurfaceId, SessionError>)
        ensures
            match *self {
                SurfaceHandle::Local { surface: id, .. } => surface == Ok::<SurfaceId, SessionError>(
                    id,
                ),
                _ => surface == Err::<SurfaceId, SessionError>(SessionError::BrowserOverAttach),
            },
    {
        match self {
            SurfaceHandle::Local { surface, .. } => Ok(*surface),
            _ => Err(SessionError::BrowserOverAttach),
        }
    }
}

/// A client whose own size has not changed sends nothing while its user does
/// nothing, whatever size the server has: idle clients cannot fight over it.
pub proof fn law_idle_clients_are_quiet(
    handle: RemoteSurface,
    server: (u16, u16),
    cols: u16,
    rows: u16,
)
    ensures
        ({
            let settled = SurfaceHandle::Remote(handle).sized(cols, rows, false).0;
            let disturbed = SurfaceHandle::Remote(RemoteSurface { server, ..settled->Remote_0 });
            disturbed.sized(cols, rows, false) == (disturbed, None::<Request>)
        }),
{
}

/// The client whose user did something last gets its size, and then sends
/// nothing more.
pub proof fn law_interaction_settles_size(handle: RemoteSurface, cols: u16, rows: u16)
    requires
        cols > 0,
        rows > 0,
    ensures
        ({
            let (told, request) = SurfaceHandle::Remote(handle).sized(cols, rows, true);
            let settled = SurfaceHandle::Remote(
                RemoteSurface { server: (cols, rows), ..told->Remote_0 },
            );
            &&& request is Some <==> handle.server != (cols, rows)
            &&& settled.sized(cols, rows, true).1 is None
            &&& settled.sized(cols, rows, false).1 is None
        }),
{
}

/// `command` is what the server reads when it is sent `request`.
pub open spec fn same_command(request: Request, command: Command) -> bool {
    match request {
        Request::NewWorkspace { size } => command matches Command::NewWorkspace { name, cols, rows }
            && name is None && server::both(cols, rows) == size,
        Request::NewScreen { size } => command matches Command::NewScreen { workspace, cols, rows }
            && workspace is None && server::both(cols, rows) == size,
        Request::NewTab { pane, size } => command matches Command::NewTab {
            pane: p,
            cwd,
            cols,
            rows,
        } && p == pane && cwd is None && server::both(cols, rows) == size,
        Request::NewBrowserTab { url, pane, size } => command matches Command::NewBrowserTab {
            url: u,
            pane: p,
            cols,
            rows,
        } && u == url && p == pane && server::both(cols, rows) == size,
        Request::Split { pane, dir, size } => command matches Command::Split {
            pane: p,
            dir: d,
            cols,
            rows,
        } && p == pane && d@ == server::dir_text(dir) && server::both(cols, rows) == size,
        Request::SetRatio { pane, dir, ratio } => command matches Command::SetRatio {
            pane: p,
            dir: d,
            ratio: r,
        } && p == pane && d@ == server::dir_text(dir) && r == ratio,
        Request::MoveTab { surface, pane, index } => command == (Command::MoveTab {
            surface,
            pane,
            index,
        }),
        Request::MoveWorkspace { workspace, index } => command == (Command::MoveWorkspace {
            workspace,
            index,
        }),
        Request::CloseSurface { surface } => command == (Command::CloseSurface { surface }),
        Request::ClosePane { pane } => command == (Command::ClosePane { pane }),
        Request::CloseScreen { screen } => command == (Command::CloseScreen { screen }),
        Request::CloseWorkspace { workspace } => command == (Command::CloseWorkspace { workspace }),
        Request::RenameSurface { surface, name } => command == (Command::RenameSurface {
            surface,
            name,
        }),
        Request::RenameScreen { screen, name } => command == (Command::RenameScreen {
            screen,
            name,
        }),
        Request::RenameWorkspace { workspace, name } => command == (Command::RenameWorkspace {
            workspace,
            name,
        }),
        Request::ResizeSurface { surface, cols, rows } => command == (Command::ResizeSurface {
            surface,
            cols,
            rows,
        }),
        Request::FocusPane { pane } => command == (Command::FocusPane { pane }),
        Request::SelectTab { pane, index, delta } => command == (Command::SelectTab {
            pane,
            index,
            delta,
        }),
        Request::SelectScreen { index, delta } => command == (Command::SelectScreen {
            index,
            delta,
        }),
        Request::SelectWorkspace { index, delta } => command == (Command::SelectWorkspace {
            index,
            delta,
        }),
    }
}

/// A request that the server accepts does to its session exactly what it
/// does to a session in the same process.
pub proof fn law_remote_like_local(
    before: MuxV,
    request: Request,
    command: Command,
    host: Host,
    after: MuxV,
    reply: Result<ReplyV, CommandError>,
)
    requires
        same_command(request, command),
        server::handles(before, command, host, after, reply),
        reply is Ok,
    ensures
        serves(
            before,
            request,
            after,
            match reply->Ok_0 {
                ReplyV::Perform(WorkV::Spawn(spawn)) => Ok(Some(spawn)),
                _ => Ok(None),
            },
        ),
{
    reveal_strlit("right");
    reveal_strlit("down");
    assert("right"@.len() != "down"@.len());
}

} // verus!
