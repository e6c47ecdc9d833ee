//! What a frontend is told and what it asks for.

use vstd::prelude::*;

use crate::geometry::Rect;
use crate::input::{BrowserKey, KeyEvent};
use crate::mux::MuxEvent;
use crate::node::{PaneId, SplitDir, SurfaceId};
use crate::session::Request;
use crate::surface::SurfaceKind;
use crate::ui::{PaneEdge, PromptTarget};

verus! {

/// What a key can be bound to.
#[derive(Debug, Clone, Copy, PartialEq, Eq, Structural)]
pub enum Action {
    NewTab,
    NewBrowserTab,
    NewPaneSmart,
    NextTab,
    PrevTab,
    SplitRight,
    SplitDown,
    CloseTab,
    ClosePane,
    RenameTab,
    RenameScreen,
    RenameWorkspace,
    CloseScreen,
    PrevScreen,
    NextScreen,
    NewScreen,
    NextWorkspace,
    NewWorkspace,
    ToggleSidebar,
    FocusLeft,
    FocusRight,
    FocusUp,
    FocusDown,
    ResizeGrow,
    ResizeShrink,
    ScrollUp,
    ScrollDown,
    Detach,
}

/// What a prompt's line editor made of a key.
#[derive(Debug, Clone, Copy, PartialEq, Eq, Structural)]
pub enum InputEvent {
    Commit,
    Cancel,
    Changed,
    Ignored,
}

/// What is known about a key when it arrives.
#[derive(Debug, Clone, Copy, PartialEq, Eq)]
pub struct KeyFacts {
    /// The action that is bound to it without the prefix.
    pub modeless: Option<Action>,
    /// It is the prefix.
    pub is_prefix: bool,
    /// The action that is bound to it after the prefix.
    pub bound: Option<Action>,
    /// What the open prompt's line editor made of it.
    pub input: InputEvent,
    /// What drives the active surface, if it can be reached.
    pub active_kind: Option<SurfaceKind>,
    /// The caller's clock, in milliseconds.
    pub now: u64,
}

#[derive(Debug, Clone, Copy, PartialEq, Eq, Structural)]
pub enum MouseKind {
    LeftDown,
    LeftDrag,
    LeftUp,
    RightDown,
    RightDrag,
    RightUp,
    Moved,
    ScrollUp,
    ScrollDown,
    Other,
}

#[derive(Debug, Clone, Copy, PartialEq, Eq, Structural)]
pub struct MouseEvent {
    pub kind: MouseKind,
    pub column: u16,
    pub row: u16,
}

/// A terminal's scrollbar: `total` rows, `len` of them shown from `offset`
/// on, by a thumb of `thumb_len` cells.
#[derive(Debug, Clone, Copy, PartialEq, Eq, Structural)]
pub struct ScrollBar {
    pub total: u64,
    pub len: u64,
    pub offset: u64,
    pub thumb_len: u16,
}

/// What is known about the surfaces when the mouse does something.
#[derive(Debug, Clone, Copy, PartialEq, Eq)]
pub struct MouseFacts {
    /// The surface under the pointer can be reached.
    pub reachable: bool,
    /// What drives the surface under the pointer.
    pub kind: SurfaceKind,
    /// It shows the alternate screen of an application without mouse support.
    pub alternate: bool,
    /// Its scrollbar offset.
    pub offset: u64,
    /// The scrollbar offset of the surface with the selection.
    pub selection_offset: u64,
    /// The scrollbar of the surface whose scrollbar is dragged.
    pub bar: Option<ScrollBar>,
    /// The caller's clock, in milliseconds.
    pub now: u64,
}

impl MouseFacts {
    /// Row numbers stay in range.
    pub open spec fn wf(self) -> bool {
        &&& self.offset <= u64::MAX - u16::MAX
        &&& self.selection_offset <= u64::MAX - u16::MAX
        &&& self.bar matches Some(bar) ==> bar.total <= i64::MAX && bar.offset <= i64::MAX
    }
}

/// What happens to a frontend.
#[derive(Debug)]
pub enum AppEvent {
    Mux(MuxEvent),
    Key(KeyEvent, KeyFacts),
    Mouse(MouseEvent, MouseFacts),
    /// Pasted text; the kind of the active surface, if it can be reached.
    Paste(String, Option<SurfaceKind>),
    FocusGained,
    Resize,
    Other,
}

/// What became of an event.
#[derive(Debug, Clone, Copy, PartialEq, Eq, Structural)]
pub struct HandleOutcome {
    pub needs_draw: bool,
    pub user_interaction: bool,
}

impl HandleOutcome {
    pub fn new(needs_draw: bool, user_interaction: bool) -> (outcome: HandleOutcome)
        ensures
            outcome == (HandleOutcome { needs_draw, user_interaction }),
    {
        HandleOutcome { needs_draw, user_interaction }
    }
}

/// What a pressed mouse button does in a page.
#[derive(Debug, Clone, Copy, PartialEq, Eq, Structural)]
pub enum MousePhase {
    Pressed,
    Moved,
    Released,
}

impl MousePhase {
    pub open spec fn text(self) -> Seq<char> {
        match self {
            MousePhase::Pressed => "mousePressed"@,
            MousePhase::Moved => "mouseMoved"@,
            MousePhase::Released => "mouseReleased"@,
        }
    }

    pub fn as_str(self) -> (text: &'static str)
        ensures
            text@ == self.text(),
    {
        match self {
            MousePhase::Pressed => "mousePressed",
            MousePhase::Moved => "mouseMoved",
            MousePhase::Released => "mouseReleased",
        }
    }
}

/// Work that a frontend asks for, to be done in order.
#[allow(inconsistent_fields)]
#[derive(Debug)]
pub enum UiEffect {
    /// Ask the session; what it answers does not matter.
    Ask(Request),
    /// Ask the session; the frontend ends when it refuses.
    AskOrQuit(Request),
    /// Rename what a prompt was opened for.
    Rename { target: PromptTarget, name: String },
    /// Open a page and report how that went.
    OpenBrowserTab { url: String, pane: Option<PaneId>, size: Option<(u16, u16)> },
    /// Split a pane whose rect is known, or not; the frontend ends when the
    /// session refuses.
    Split { pane: PaneId, dir: SplitDir, rect: Option<Rect> },
    /// Focus the pane's neighbor.
    MoveFocus { from: PaneId, dx: i8, dy: i8 },
    /// Make the focused pane larger or smaller.
    ResizeFocused { grow: bool },
    /// Move a pane's edge to a cell.
    ResizeSplit { pane: PaneId, edge: PaneEdge, x: u16, y: u16 },
    /// Drop what was drawn of a surface.
    ForgetRender(SurfaceId),
    /// Drop what was drawn of every surface.
    ClearRenders,
    /// Drop the mirror of a surface.
    ForgetSurface(SurfaceId),
    /// Look up the size of a cell again.
    RefreshCellPixels,
    /// Give a surface its size.
    Resize { surface: SurfaceId, cols: u16, rows: u16 },
    /// Claim a surface's size.
    Reassert { surface: SurfaceId, cols: u16, rows: u16 },
    /// Type a key into a terminal.
    TypeKey { surface: SurfaceId, key: KeyEvent },
    /// Type a character into a page.
    BrowserChar { surface: SurfaceId, c: char },
    /// Type text into a page.
    BrowserText { surface: SurfaceId, text: String },
    /// Press or release a key in a page.
    BrowserKey { surface: SurfaceId, down: bool, key: BrowserKey, modifiers: u32 },
    /// Use the mouse in a page, the point in half pixels; the frontend ends
    /// when the page cannot be reached.
    BrowserMouse { surface: SurfaceId, phase: MousePhase, half_x: u64, half_y: u64 },
    /// Turn the wheel in a page; the point is in half pixels.
    BrowserWheel { surface: SurfaceId, half_x: u64, half_y: u64, delta_y: i32 },
    /// Paste into a terminal.
    Paste { surface: SurfaceId, text: String },
    /// Scroll a terminal by rows; negative is up.
    Scroll { surface: SurfaceId, delta: i64 },
    /// Show the live end of a terminal and type arrow keys.
    Arrows { surface: SurfaceId, down: bool },
    /// A press on a scrollbar's track.
    StartScroll { surface: SurfaceId, track: Rect, y: u16 },
    /// Copy the text between two cells.
    CopySelection { surface: SurfaceId, start: (u16, u64), end: (u16, u64) },
    /// Put text on the clipboard.
    Copy(String),
    /// Empty the prompt's line editor.
    PromptClear,
    /// Put the line editor's cursor at a visible column.
    PromptCursor { column: u16, width: u16 },
    /// Type into the line editor.
    PromptInsert(String),
    /// Change the pointer's shape.
    Pointer { hand: bool },
}

/// The mathematical value of a [`UiEffect`].
#[allow(inconsistent_fields)]
#[verifier::ext_equal]
pub enum UiEffectV {
    Ask(Request),
    AskOrQuit(Request),
    Rename { target: PromptTarget, name: Seq<char> },
    OpenBrowserTab { url: Seq<char>, pane: Option<PaneId>, size: Option<(u16, u16)> },
    Split { pane: PaneId, dir: SplitDir, rect: Option<Rect> },
    MoveFocus { from: PaneId, dx: i8, dy: i8 },
    ResizeFocused { grow: bool },
    ResizeSplit { pane: PaneId, edge: PaneEdge, x: u16, y: u16 },
    ForgetRender(SurfaceId),
    ClearRenders,
    ForgetSurface(SurfaceId),
    RefreshCellPixels,
    Resize { surface: SurfaceId, cols: u16, rows: u16 },
    Reassert { surface: SurfaceId, cols: u16, rows: u16 },
    TypeKey { surface: SurfaceId, key: KeyEvent },
    BrowserChar { surface: SurfaceId, c: char },
    BrowserText { surface: SurfaceId, text: Seq<char> },
    BrowserKey { surface: SurfaceId, down: bool, key: BrowserKey, modifiers: int },
    BrowserMouse { surface: SurfaceId, phase: MousePhase, half_x: int, half_y: int },
    BrowserWheel { surface: SurfaceId, half_x: int, half_y: int, delta_y: int },
    Paste { surface: SurfaceId, text: Seq<char> },
    Scroll { surface: SurfaceId, delta: int },
    Arrows { surface: SurfaceId, down: bool },
    StartScroll { surface: SurfaceId, track: Rect, y: u16 },
    CopySelection { surface: SurfaceId, start: (u16, u64), end: (u16, u64) },
    Copy(Seq<char>),
    PromptClear,
    PromptCursor { column: int, width: u16 },
    PromptInsert(Seq<char>),
    Pointer { hand: bool },
}

impl View for UiEffect {
    type V = UiEffectV;

    open spec fn view(&self) -> UiEffectV {
        match *self {
            UiEffect::Ask(request) => UiEffectV::Ask(request),
            UiEffect::AskOrQuit(request) => UiEffectV::AskOrQuit(request),
            UiEffect::Rename { target, name } => UiEffectV::Rename { target, name: name@ },
            UiEffect::OpenBrowserTab { url, pane, size } => UiEffectV::OpenBrowserTab {
                url: url@,
                pane,
                size,
            },
            UiEffect::Split { pane, dir, rect } => UiEffectV::Split { pane, dir, rect },
            UiEffect::MoveFocus { from, dx, dy } => UiEffectV::MoveFocus { from, dx, dy },
            UiEffect::ResizeFocused { grow } => UiEffectV::ResizeFocused { grow },
            UiEffect::ResizeSplit { pane, edge, x, y } => UiEffectV::ResizeSplit {
                pane,
                edge,
                x,
                y,
            },
            UiEffect::ForgetRender(surface) => UiEffectV::ForgetRender(surface),
            UiEffect::ClearRenders => UiEffectV::ClearRenders,
            UiEffect::ForgetSurface(surface) => UiEffectV::ForgetSurface(surface),
            UiEffect::RefreshCellPixels => UiEffectV::RefreshCellPixels,
            UiEffect::Resize { surface, cols, rows } => UiEffectV::Resize { surface, cols, rows },
            UiEffect::Reassert { surface, cols, rows } => UiEffectV::Reassert {
                surface,
                cols,
                rows,
            },
            UiEffect::TypeKey { surface, key } => UiEffectV::TypeKey { surface, key },
            UiEffect::BrowserChar { surface, c } => UiEffectV::BrowserChar { surface, c },
            UiEffect::BrowserText { surface, text } => UiEffectV::BrowserText {
                surface,
                text: text@,
            },
            UiEffect::BrowserKey { surface, down, key, modifiers } => UiEffectV::BrowserKey {
                surface,
                down,
                key,
                modifiers: modifiers as int,
            },
            UiEffect::BrowserMouse { surface, phase, half_x, half_y } => UiEffectV::BrowserMouse {
                surface,
                phase,
                half_x: half_x as int,
                half_y: half_y as int,
            },
            UiEffect::BrowserWheel { surface, half_x, half_y, delta_y } => UiEffectV::BrowserWheel {
                surface,
                half_x: half_x as int,
                half_y: half_y as int,
                delta_y: delta_y as int,
            },
            UiEffect::Paste { surface, text } => UiEffectV::Paste { surface, text: text@ },
            UiEffect::Scroll { surface, delta } => UiEffectV::Scroll {
                surface,
                delta: delta as int,
            },
            UiEffect::Arrows { surface, down } => UiEffectV::Arrows { surface, down },
            UiEffect::StartScroll { surface, track, y } => UiEffectV::StartScroll {
                surface,
                track,
                y,
            },
            UiEffect::CopySelection { surface, start, end } => UiEffectV::CopySelection {
                surface,
                start,
                end,
            },
            UiEffect::Copy(text) => UiEffectV::Copy(text@),
            UiEffect::PromptClear => UiEffectV::PromptClear,
            UiEffect::PromptCursor { column, width } => UiEffectV::PromptCursor {
                column: column as int,
                width,
            },
            UiEffect::PromptInsert(text) => UiEffectV::PromptInsert(text@),
            UiEffect::Pointer { hand } => UiEffectV::Pointer { hand },
        }
    }
}

} // verus!
