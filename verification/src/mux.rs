//! The multiplexer: owns the session and says what is to be done for it.

use std::collections::HashMap;

use vstd::prelude::*;

use crate::browser;
use crate::browser::{clamp_one, BrowserRuntime, BrowserRuntimeV, CdpEvent};
use crate::consistency;
use crate::model::{Pane, PaneV, Screen, State, StateV, Workspace, WorkspaceV};
use crate::node::{Node, PaneId, ScreenId, SplitDir, SurfaceId, WorkspaceId};
use crate::ops;
use crate::ratio::Ratio;
use crate::surface::{BrowserSource, DefaultColors, Surface, SurfaceOptions};
use crate::text;

verus! {

broadcast use vstd::std_specs::hash::group_hash_axioms;

/// Events for subscribed frontends.
#[derive(Debug, Clone, Copy, PartialEq, Eq, Structural)]
pub enum MuxEvent {
    /// New output arrived in a surface.
    SurfaceOutput(SurfaceId),
    /// A surface changed size.
    SurfaceResized { surface: SurfaceId, cols: u16, rows: u16 },
    /// A surface's child exited. It is already out of the tree, and
    /// `TreeChanged` follows.
    SurfaceExited(SurfaceId),
    TitleChanged(SurfaceId),
    Bell(SurfaceId),
    /// The workspace/screen/pane/tab tree changed.
    TreeChanged,
    /// Every workspace is gone.
    Empty,
}

/// Work that the session asks for, to be done in order.
#[derive(Debug, Clone, Copy, PartialEq, Eq)]
pub enum Effect {
    /// Tell every subscriber.
    Emit(MuxEvent),
    /// End a surface.
    Kill(SurfaceId),
    /// Give a surface its size in cells.
    Resize { surface: SurfaceId, cols: u16, rows: u16 },
    /// Tell a surface the size of a cell.
    SetCellPixels { surface: SurfaceId, width: u16, height: u16 },
    /// Tell a surface the default colors.
    SetColors { surface: SurfaceId, colors: DefaultColors },
    /// Stop the browser that was launched for the session.
    StopBrowser,
}

/// Why a request was refused.
#[derive(Debug, Clone, Copy, PartialEq, Eq, Structural)]
pub enum MuxError {
    UnknownSurface(SurfaceId),
    UnknownPane(PaneId),
    UnknownWorkspace(WorkspaceId),
    PaneNotFound(PaneId),
    WorkspaceDisappeared,
    PaneDisappeared,
    BrowserPaneDisappeared,
}

impl MuxError {
    pub open spec fn text(self) -> Seq<char> {
        match self {
            MuxError::UnknownSurface(id) => "unknown surface "@ + text::decimal(id as nat),
            MuxError::UnknownPane(id) => "unknown pane "@ + text::decimal(id as nat),
            MuxError::UnknownWorkspace(id) => "unknown workspace "@ + text::decimal(id as nat),
            MuxError::PaneNotFound(id) => "pane "@ + text::decimal(id as nat) + " not found"@,
            MuxError::WorkspaceDisappeared => "workspace disappeared while creating screen"@,
            MuxError::PaneDisappeared => "pane disappeared while creating tab"@,
            MuxError::BrowserPaneDisappeared => "pane disappeared while creating browser tab"@,
        }
    }

    pub fn message(&self) -> (message: String)
        ensures
            message@ == self.text(),
    {
        match self {
            MuxError::UnknownSurface(id) => text::with_number("unknown surface ", *id),
            MuxError::UnknownPane(id) => text::with_number("unknown pane ", *id),
            MuxError::UnknownWorkspace(id) => text::with_number("unknown workspace ", *id),
            MuxError::PaneNotFound(id) => text::concat(
                text::with_number("pane ", *id).as_str(),
                " not found",
            ),
            MuxError::WorkspaceDisappeared =>
                "workspace disappeared while creating screen".to_owned(),
            MuxError::PaneDisappeared => "pane disappeared while creating tab".to_owned(),
            MuxError::BrowserPaneDisappeared =>
                "pane disappeared while creating browser tab".to_owned(),
        }
    }
}

/// What a fresh surface is made of.
#[derive(Debug)]
pub enum SpawnWork {
    Pty { cwd: Option<String>, cols: u16, rows: u16 },
    /// A page; `connect` when the browser connection has to be made first.
    Browser { url: String, size: (u16, u16), cell_pixels: (u16, u16), connect: bool },
}

/// Where a fresh surface goes.
#[derive(Debug)]
pub enum Place {
    Workspace { name: Option<String> },
    Screen { workspace: Option<WorkspaceId> },
    Tab { pane: PaneId, browser: bool },
    Split { target: PaneId, dir: SplitDir },
}

/// A surface to be made, and where to attach it once it runs.
#[derive(Debug)]
pub struct Spawn {
    pub id: SurfaceId,
    pub work: SpawnWork,
    pub place: Place,
}

/// The multiplexer.
#[derive(Debug)]
pub struct Mux {
    state: State,
    next_id: u64,
    next_active_at: u64,
    surface_options: SurfaceOptions,
    browser_runtime: Option<BrowserRuntime>,
    cell_pixels: (u16, u16),
    default_colors: DefaultColors,
    outbox: Vec<Effect>,
    session: String,
}

/// The mathematical value of a [`Mux`].
#[verifier::ext_equal]
pub struct MuxV {
    pub state: StateV,
    pub next_id: u64,
    pub next_active_at: u64,
    pub surface_options: SurfaceOptions,
    pub browser_runtime: Option<BrowserRuntimeV>,
    pub cell_pixels: (u16, u16),
    pub default_colors: DefaultColors,
    pub outbox: Seq<Effect>,
    pub session: Seq<char>,
}

impl View for Mux {
    type V = MuxV;

    closed spec fn view(&self) -> MuxV {
        MuxV {
            state: self.state@,
            next_id: self.next_id,
            next_active_at: self.next_active_at,
            surface_options: self.surface_options,
            browser_runtime: match self.browser_runtime {
                Some(runtime) => Some(runtime@),
                None => None,
            },
            cell_pixels: self.cell_pixels,
            default_colors: self.default_colors,
            outbox: self.outbox@,
            session: self.session@,
        }
    }
}

/// The stamp after `n`; the clock starts over at its end.
pub open spec fn next_stamp(n: u64) -> u64 {
    if n == u64::MAX {
        0
    } else {
        (n + 1) as u64
    }
}

/// The session after `surfaces` were removed one after the other.
pub open spec fn without_all(state: StateV, surfaces: Seq<SurfaceId>) -> StateV
    decreases surfaces.len(),
{
    if surfaces.len() == 0 {
        state
    } else {
        without_all(state, surfaces.drop_last()).without_surface(surfaces.last())
    }
}

/// Those of `surfaces` that were there to be removed.
pub open spec fn removed_of(state: StateV, surfaces: Seq<SurfaceId>) -> Seq<SurfaceId>
    decreases surfaces.len(),
{
    if surfaces.len() == 0 {
        seq![]
    } else {
        let before = removed_of(state, surfaces.drop_last());
        if without_all(state, surfaces.drop_last()).surfaces.contains_key(surfaces.last()) {
            before.push(surfaces.last())
        } else {
            before
        }
    }
}

/// One effect of its kind for each of `surfaces`.
pub open spec fn kills(surfaces: Seq<SurfaceId>) -> Seq<Effect> {
    surfaces.map_values(|id: SurfaceId| Effect::Kill(id))
}

pub open spec fn cell_effects(surfaces: Seq<SurfaceId>, cell: (u16, u16)) -> Seq<Effect> {
    surfaces.map_values(
        |id: SurfaceId| Effect::SetCellPixels { surface: id, width: cell.0, height: cell.1 },
    )
}

/// Each surface is told the colors and then drawn again.
pub open spec fn color_effects(surfaces: Seq<SurfaceId>, colors: DefaultColors) -> Seq<Effect>
    decreases surfaces.len(),
{
    if surfaces.len() == 0 {
        seq![]
    } else {
        color_effects(surfaces.drop_last(), colors) + seq![
            Effect::SetColors { surface: surfaces.last(), colors },
            Effect::Emit(MuxEvent::SurfaceOutput(surfaces.last())),
        ]
    }
}

/// Every surface in `screens`, screen by screen.
pub open spec fn screens_tabs(state: StateV, screens: Seq<Screen>) -> Seq<SurfaceId>
    decreases screens.len(),
{
    if screens.len() == 0 {
        seq![]
    } else {
        screens_tabs(state, screens.drop_last()) + state.screen_tabs(screens.last())
    }
}

/// The name that was given; an empty one is none.
pub open spec fn given_name(name: String) -> Option<String> {
    if name@.len() == 0 {
        None
    } else {
        Some(name)
    }
}

fn keep_name(name: String) -> (kept: Option<String>)
    ensures
        kept == given_name(name),
{
    if name.as_str().is_empty() {
        None
    } else {
        Some(name)
    }
}

/// The first of two values that is there.
pub open spec fn first_of<T>(first: Option<T>, second: Option<T>) -> Option<T> {
    match first {
        Some(_) => first,
        None => second,
    }
}

/// Half of what is left of `n` cells beside a border, but at least one.
pub open spec fn half_span(n: u16) -> u16 {
    if n < 3 {
        1
    } else {
        ((n - 1) / 2) as u16
    }
}

/// The size of one half of a split.
pub open spec fn half_size(whole: (u16, u16), dir: SplitDir) -> (u16, u16) {
    match dir {
        SplitDir::Right => (half_span(whole.0), whole.1),
        SplitDir::Down => (whole.0, half_span(whole.1)),
    }
}

fn half(n: u16) -> (span: u16)
    ensures
        span == half_span(n),
{
    clamp_one(n.saturating_sub(1) / 2)
}

/// `order` goes through the surfaces of `state`, each once.
pub open spec fn goes_through(order: Seq<SurfaceId>, state: StateV) -> bool {
    &&& order.no_duplicates()
    &&& forall|id: SurfaceId| #[trigger] order.contains(id) <==> state.surfaces.contains_key(id)
}

impl MuxV {
    pub open spec fn wf(self) -> bool {
        &&& self.state.wf()
        &&& self.state.below(self.next_id)
        &&& self.browser_runtime matches Some(runtime) ==> runtime.wf()
    }

    /// `n` more ids can be given out.
    pub open spec fn ids_left(self, n: u64) -> bool {
        self.next_id + n <= u64::MAX
    }

    /// `id` was given out for a surface that is not attached yet.
    pub open spec fn awaits(self, id: SurfaceId) -> bool {
        &&& id < self.next_id
        &&& !self.state.surfaces.contains_key(id)
        &&& self.state.pane_of(id) is None
    }

    pub open spec fn emitting(self, effects: Seq<Effect>) -> MuxV {
        MuxV { outbox: self.outbox + effects, ..self }
    }

    /// The tree changed, and everybody is told.
    pub open spec fn changed(self, state: StateV) -> MuxV {
        (MuxV { state, ..self }).emitting(seq![Effect::Emit(MuxEvent::TreeChanged)])
    }

    /// One stamp of the clock is used.
    pub open spec fn ticked(self) -> MuxV {
        MuxV { next_active_at: next_stamp(self.next_active_at), ..self }
    }

    /// The given pane, or the active one.
    pub open spec fn pane_or_active(self, pane: Option<PaneId>) -> Option<PaneId> {
        match pane {
            Some(pane) => Some(pane),
            None => self.state.active_pane(),
        }
    }

    /// What is announced when no workspace is left.
    pub open spec fn farewell(state: StateV) -> Seq<Effect> {
        if state.workspaces.len() == 0 {
            seq![Effect::Emit(MuxEvent::Empty)]
        } else {
            seq![]
        }
    }

    /// `target` is closed.
    pub open spec fn closed(self, target: SurfaceId) -> MuxV {
        let state = self.state.without_surface(target);
        let effects = if self.state.surfaces.contains_key(target) {
            seq![Effect::Kill(target), Effect::Emit(MuxEvent::TreeChanged)]
        } else {
            seq![]
        };
        (MuxV { state, ..self }).emitting(effects + Self::farewell(state))
    }

    /// The child of `id` exited: the surface goes, and its end is told before
    /// the change of the tree.
    pub open spec fn exited(self, id: SurfaceId) -> MuxV {
        let state = self.state.without_surface(id);
        let told = seq![Effect::Emit(MuxEvent::SurfaceExited(id))];
        let effects = if self.state.surfaces.contains_key(id) {
            seq![Effect::Kill(id)] + told + seq![Effect::Emit(MuxEvent::TreeChanged)]
        } else {
            told
        };
        (MuxV { state, ..self }).emitting(effects + Self::farewell(state))
    }

    /// All of `tabs` are closed.
    pub open spec fn closed_all(self, tabs: Seq<SurfaceId>) -> MuxV {
        let state = without_all(self.state, tabs);
        let removed = removed_of(self.state, tabs);
        let effects = if removed.len() > 0 {
            kills(removed).push(Effect::Emit(MuxEvent::TreeChanged))
        } else {
            seq![]
        };
        (MuxV { state, ..self }).emitting(effects + Self::farewell(state))
    }

    /// A surface whose child is already gone is closed again.
    pub open spec fn reaped(self, surface: Surface) -> MuxV {
        if surface.dead {
            self.closed(surface.id)
        } else {
            self
        }
    }

    /// The surface is known, but in no pane yet.
    pub open spec fn with_surface(self, surface: Surface) -> StateV {
        StateV { surfaces: self.state.surfaces.insert(surface.id, surface), ..self.state }
    }

    /// The workspace that a fresh screen goes to.
    pub open spec fn screen_target(self, workspace: Option<WorkspaceId>) -> Option<int> {
        match workspace {
            Some(id) => self.state.workspace_index(id),
            None => if 0 <= self.state.active_workspace < self.state.workspaces.len() {
                Some(self.state.active_workspace)
            } else {
                None
            },
        }
    }

    /// The name of a workspace that is made without one.
    pub open spec fn workspace_name(self, name: Option<String>) -> Seq<char> {
        match name {
            Some(name) => name@,
            None => text::decimal(self.state.workspaces.len() + 1),
        }
    }

    /// A surface could not be attached and is ended.
    pub open spec fn turned_away(self, surface: SurfaceId) -> MuxV {
        self.emitting(seq![Effect::Kill(surface)])
    }

    /// The outcome of resizing `id`.
    pub open spec fn resized(self, id: SurfaceId, cols: u16, rows: u16) -> (MuxV, Result<
        bool,
        MuxError,
    >) {
        if self.state.surfaces.contains_key(id) {
            let size = (browser::at_least_one(cols), browser::at_least_one(rows));
            let surface = self.state.surfaces[id];
            let changed = (surface.cols, surface.rows) != size;
            let told = if changed {
                seq![
                    Effect::Emit(
                        MuxEvent::SurfaceResized { surface: id, cols: size.0, rows: size.1 },
                    ),
                ]
            } else {
                seq![]
            };
            let next = MuxV { state: self.state.with_surface_size(id, size), ..self };
            (
                next.emitting(
                    seq![Effect::Resize { surface: id, cols: size.0, rows: size.1 }] + told,
                ),
                Ok(changed),
            )
        } else {
            (self, Err(MuxError::UnknownSurface(id)))
        }
    }

    /// One id is given out.
    pub open spec fn one_id_used(self) -> MuxV {
        MuxV { next_id: (self.next_id + 1) as u64, ..self }
    }

    /// The browser connection, while it is open.
    pub open spec fn live_runtime(self) -> Option<BrowserRuntimeV> {
        match self.browser_runtime {
            Some(runtime) if !runtime.closed => Some(runtime),
            _ => None,
        }
    }

    /// The surface of a pane's active tab.
    pub open spec fn pane_surface(self, pane: PaneId) -> Option<Surface> {
        if self.state.panes.contains_key(pane) {
            match self.state.panes[pane].active_surface() {
                Some(id) if self.state.surfaces.contains_key(id) => Some(self.state.surfaces[id]),
                _ => None,
            }
        } else {
            None
        }
    }

    pub open spec fn pane_cwd(self, pane: PaneId) -> Option<String> {
        match self.pane_surface(pane) {
            Some(surface) => surface.pwd,
            None => None,
        }
    }

    pub open spec fn pane_size(self, pane: PaneId) -> Option<(u16, u16)> {
        match self.pane_surface(pane) {
            Some(surface) => Some((surface.cols, surface.rows)),
            None => None,
        }
    }

    /// A terminal at `size` cells or at the size of the options.
    pub open spec fn pty_work(self, cwd: Option<String>, size: Option<(u16, u16)>) -> SpawnWork {
        SpawnWork::Pty {
            cwd: first_of(cwd, self.surface_options.cwd),
            cols: match size {
                Some(size) => browser::at_least_one(size.0),
                None => self.surface_options.cols,
            },
            rows: match size {
                Some(size) => browser::at_least_one(size.1),
                None => self.surface_options.rows,
            },
        }
    }

    /// A page for `url`.
    pub open spec fn browser_work(self, url: String, size: Option<(u16, u16)>) -> SpawnWork {
        SpawnWork::Browser {
            url,
            size: match size {
                Some(size) => size,
                None => (self.surface_options.cols, self.surface_options.rows),
            },
            cell_pixels: self.cell_pixels,
            connect: self.live_runtime() is None,
        }
    }

    pub open spec fn workspace_spawn(self, name: Option<String>, size: Option<(u16, u16)>) -> Spawn {
        Spawn {
            id: self.next_id,
            work: self.pty_work(None, size),
            place: Place::Workspace { name },
        }
    }

    pub open spec fn screen_spawn(
        self,
        workspace: Option<WorkspaceId>,
        size: Option<(u16, u16)>,
    ) -> Spawn {
        Spawn {
            id: self.next_id,
            work: self.pty_work(None, size),
            place: Place::Screen { workspace },
        }
    }

    /// The pane that a fresh tab goes to: the given one, which must exist,
    /// or the active one, if there is any.
    pub open spec fn tab_target(self, pane: Option<PaneId>) -> Result<Option<PaneId>, MuxError> {
        match pane {
            Some(id) => if self.state.panes.contains_key(id) {
                Ok(Some(id))
            } else {
                Err(MuxError::UnknownPane(id))
            },
            None => Ok(self.state.active_pane()),
        }
    }

    /// `target` and its tabs are closed.
    pub open spec fn pane_closed(self, target: PaneId) -> MuxV {
        if self.state.panes.contains_key(target) {
            self.closed_all(self.state.panes[target].tabs)
        } else {
            self
        }
    }

    /// The screen `target` and everything in it are closed.
    pub open spec fn screen_closed(self, target: ScreenId) -> MuxV {
        match self.state.screen_index(target) {
            Some((w, s)) => self.closed_all(
                self.state.screen_tabs(self.state.screen(w, s)),
            ),
            None => self,
        }
    }

    /// The workspace `target` and everything in it are closed.
    pub open spec fn workspace_closed(self, target: WorkspaceId) -> MuxV {
        match self.state.workspace_index(target) {
            Some(w) => self.closed_all(
                screens_tabs(self.state, self.state.workspaces[w].screens),
            ),
            None => self,
        }
    }

    pub open spec fn workspace_renamed(self, target: WorkspaceId, name: Seq<char>) -> MuxV {
        match self.state.workspace_index(target) {
            Some(w) => self.changed(self.state.with_workspace_name(w, name)),
            None => self,
        }
    }

    pub open spec fn pane_renamed(self, target: PaneId, name: String) -> MuxV {
        if self.state.panes.contains_key(target) {
            self.changed(self.state.with_pane_name(target, given_name(name)))
        } else {
            self
        }
    }

    pub open spec fn surface_renamed(self, target: SurfaceId, name: String) -> MuxV {
        if self.state.surfaces.contains_key(target) {
            self.changed(self.state.with_surface_name(target, given_name(name)))
        } else {
            self
        }
    }

    pub open spec fn screen_renamed(self, target: ScreenId, name: String) -> MuxV {
        match self.state.screen_index(target) {
            Some((w, s)) => self.changed(
                self.state.with_screen_name(w, s, given_name(name)),
            ),
            None => self,
        }
    }

    /// `pane` is made active, if it is there.
    pub open spec fn pane_focused(self, pane: PaneId) -> MuxV {
        if self.state.panes.contains_key(pane) {
            self.ticked().changed(
                self.state.focused(pane).stamped(pane, self.next_active_at),
            )
        } else {
            self.ticked()
        }
    }

    /// The deepest split in `dir` above `pane` gets a ratio, if there is one.
    pub open spec fn ratio_set(self, pane: PaneId, dir: SplitDir, ratio: Ratio) -> MuxV {
        match self.state.with_ratio(pane, dir, ratio.clamped()) {
            Some(state) => self.changed(state),
            None => self,
        }
    }

    /// A tab is moved, if it can be.
    pub open spec fn tab_moved(self, surface: SurfaceId, pane: PaneId, index: int) -> MuxV {
        match self.state.with_tab_moved(surface, pane, index) {
            Some(state) => self.ticked().changed(
                state.stamped(pane, self.next_active_at),
            ),
            None => self.ticked(),
        }
    }

    /// A workspace is moved, if it can be.
    pub open spec fn workspace_moved(self, workspace: WorkspaceId, index: int) -> MuxV {
        match self.state.with_workspace_moved(workspace, index) {
            Some(state) => self.changed(state),
            None => self,
        }
    }

    pub open spec fn tab_selected(
        self,
        pane: Option<PaneId>,
        index: Option<usize>,
        delta: Option<isize>,
    ) -> MuxV {
        match self.pane_or_active(pane) {
            Some(target) if self.state.panes.contains_key(target) =>
                self.ticked().changed(
                self.state.with_tab_selected(target, index, delta).stamped(
                    target,
                    self.next_active_at,
                ),
            ),
            _ => self.ticked(),
        }
    }

    pub open spec fn screen_selected(self, index: Option<usize>, delta: Option<isize>) -> MuxV {
        if self.state.workspaces.len() > 0 {
            self.ticked().changed(
                self.state.with_screen_selected(index, delta).stamped_active(
                    self.next_active_at,
                ),
            )
        } else {
            self.ticked()
        }
    }

    pub open spec fn workspace_selected(self, index: Option<usize>, delta: Option<isize>) -> MuxV {
        if self.state.workspaces.len() > 0 {
            self.ticked().changed(
                self.state.with_workspace_selected(index, delta).stamped_active(
                    self.next_active_at,
                ),
            )
        } else {
            self.ticked()
        }
    }

    /// The outcome of asking for a screen.
    pub open spec fn screen_request(
        self,
        workspace: Option<WorkspaceId>,
        size: Option<(u16, u16)>,
    ) -> Result<Spawn, MuxError> {
        match workspace {
            Some(id) => if self.state.workspace_index(id) is None {
                Err(MuxError::UnknownWorkspace(id))
            } else {
                Ok(self.screen_spawn(workspace, size))
            },
            None => if self.state.workspaces.len() == 0 {
                Ok(self.workspace_spawn(None, size))
            } else {
                Ok(self.screen_spawn(workspace, size))
            },
        }
    }

    /// The outcome of asking for a tab: it starts in the directory and at
    /// the size of the tab that is active in its pane.
    pub open spec fn tab_request(
        self,
        pane: Option<PaneId>,
        cwd: Option<String>,
        size: Option<(u16, u16)>,
    ) -> Result<Spawn, MuxError> {
        match self.tab_target(pane) {
            Err(error) => Err(error),
            Ok(None) => Ok(self.workspace_spawn(None, size)),
            Ok(Some(target)) => Ok(
                Spawn {
                    id: self.next_id,
                    work: self.pty_work(
                        first_of(cwd, self.pane_cwd(target)),
                        first_of(size, self.pane_size(target)),
                    ),
                    place: Place::Tab { pane: target, browser: false },
                },
            ),
        }
    }

    /// The outcome of asking for a browser tab.
    pub open spec fn browser_request(
        self,
        url: String,
        pane: Option<PaneId>,
        size: Option<(u16, u16)>,
    ) -> Result<Spawn, MuxError> {
        match self.tab_target(pane) {
            Err(error) => Err(error),
            Ok(None) => Ok(
                Spawn {
                    id: self.next_id,
                    work: self.browser_work(url, size),
                    place: Place::Workspace { name: None },
                },
            ),
            Ok(Some(target)) => Ok(
                Spawn {
                    id: self.next_id,
                    work: self.browser_work(url, first_of(size, self.pane_size(target))),
                    place: Place::Tab { pane: target, browser: true },
                },
            ),
        }
    }

    /// What splitting `target` asks for: a pane in its directory, at half
    /// its size unless one is given.
    pub open spec fn split_request(
        self,
        target: PaneId,
        dir: SplitDir,
        size: Option<(u16, u16)>,
    ) -> Spawn {
        Spawn {
            id: self.next_id,
            work: self.pty_work(
                self.pane_cwd(target),
                first_of(
                    size,
                    match self.pane_size(target) {
                        Some(whole) => Some(half_size(whole, dir)),
                        None => None,
                    },
                ),
            ),
            place: Place::Split { target, dir },
        }
    }

    /// `after` is the outcome of setting the default colors: every surface
    /// is told, in some order.
    pub open spec fn recolored(self, colors: DefaultColors, after: MuxV) -> bool {
        exists|order: Seq<SurfaceId>| #[trigger]
            goes_through(order, self.state) && after == (MuxV {
                default_colors: colors,
                ..self
            }).emitting(color_effects(order, colors))
    }

    /// The outcome of attaching `surface` at `place`.
    pub open spec fn attached(self, place: Place, surface: Surface) -> (MuxV, Result<
        SurfaceId,
        MuxError,
    >) {
        let id = surface.id;
        let known = self.with_surface(surface);
        let n = self.next_id;
        let at = self.next_active_at;
        match place {
            Place::Workspace { name } => {
                let state = known.with_workspace(
                    (n + 2) as u64,
                    self.workspace_name(name),
                    (n + 1) as u64,
                    n,
                ).with_pane(n, id, at);
                let next = (MuxV { next_id: (n + 3) as u64, ..self }).ticked().changed(state);
                (next.reaped(surface), Ok(id))
            },
            Place::Screen { workspace } => {
                let spent = (MuxV { next_id: (n + 2) as u64, ..self }).ticked();
                match self.screen_target(workspace) {
                    Some(w) => {
                        let state = known.with_screen(w, (n + 1) as u64, n).with_pane(n, id, at);
                        (spent.changed(state).reaped(surface), Ok(id))
                    },
                    None => (spent.turned_away(id), Err(MuxError::WorkspaceDisappeared)),
                }
            },
            Place::Tab { pane, browser } => if self.state.panes.contains_key(pane) {
                let state = known.with_tab(
                    pane,
                    id,
                    self.state.panes[pane].tabs.len() as int,
                ).stamped(pane, at);
                (self.ticked().changed(state).reaped(surface), Ok(id))
            } else {
                (
                    self.ticked().turned_away(id),
                    Err(
                        if browser {
                            MuxError::BrowserPaneDisappeared
                        } else {
                            MuxError::PaneDisappeared
                        },
                    ),
                )
            },
            Place::Split { target, dir } => {
                let spent = MuxV { next_id: (n + 1) as u64, ..self };
                if self.state.placed(target) {
                    let state = known.with_split(target, dir, n).with_pane(n, id, at);
                    (spent.ticked().changed(state).reaped(surface), Ok(id))
                } else {
                    (spent.turned_away(id), Err(MuxError::PaneNotFound(target)))
                }
            },
        }
    }
}

impl Mux {
    pub open spec fn wf(&self) -> bool {
        self@.wf()
    }

    /// An empty session.
    pub fn new(session: String, surface_options: SurfaceOptions) -> (mux: Mux)
        ensures
            mux.wf(),
            mux@ == (MuxV {
                state: StateV {
                    workspaces: seq![],
                    active_workspace: 0,
                    panes: Map::empty(),
                    surfaces: Map::empty(),
                },
                next_id: 1,
                next_active_at: 1,
                surface_options,
                browser_runtime: None,
                cell_pixels: (8, 16),
                default_colors: DefaultColors { fg: None, bg: None },
                outbox: seq![],
                session: session@,
            }),
    {
        let state = State {
            workspaces: Vec::new(),
            active_workspace: 0,
            panes: HashMap::new(),
            surfaces: HashMap::new(),
        };
        assert(state@.workspaces =~= Seq::<WorkspaceV>::empty());
        assert(state@.panes =~= Map::<PaneId, PaneV>::empty());
        Mux {
            state,
            next_id: 1,
            next_active_at: 1,
            surface_options,
            browser_runtime: None,
            cell_pixels: (8, 16),
            default_colors: DefaultColors { fg: None, bg: None },
            outbox: Vec::new(),
            session,
        }
    }

    /// An id that was never used.
    fn next_id(&mut self) -> (id: u64)
        requires
            old(self)@.ids_left(1),
        ensures
            id == old(self)@.next_id,
            final(self)@ == (MuxV { next_id: (old(self)@.next_id + 1) as u64, ..old(self)@ }),
    {
        let id: u64 = self.next_id;
        self.next_id = self.next_id + 1;
        id
    }

    /// The next stamp of the session's clock.
    fn next_active_at(&mut self) -> (stamp: u64)
        ensures
            stamp == old(self)@.next_active_at,
            final(self)@ == old(self)@.ticked(),
    {
        let stamp: u64 = self.next_active_at;
        self.next_active_at = if stamp == u64::MAX {
            0
        } else {
            stamp + 1
        };
        stamp
    }

    /// Tells every subscriber.
    pub fn emit(&mut self, event: MuxEvent)
        ensures
            final(self)@ == old(self)@.emitting(seq![Effect::Emit(event)]),
    {
        self.request(Effect::Emit(event));
    }

    fn request(&mut self, effect: Effect)
        ensures
            final(self)@ == old(self)@.emitting(seq![effect]),
    {
        self.outbox.push(effect);
        assert(self@.outbox =~= old(self)@.outbox + seq![effect]);
    }

    /// Hands out the work that has come together.
    pub fn take_effects(&mut self) -> (effects: Vec<Effect>)
        ensures
            effects@ == old(self)@.outbox,
            final(self)@ == (MuxV { outbox: seq![], ..old(self)@ }),
    {
        let mut effects: Vec<Effect> = Vec::new();
        core::mem::swap(&mut effects, &mut self.outbox);
        effects
    }

    pub fn state(&self) -> (state: &State)
        ensures
            state@ == self@.state,
    {
        &self.state
    }

    /// Runs `f` with the session state.
    pub fn with_state<R, F: FnOnce(&State) -> R>(&self, f: F) -> (r: R)
        requires
            forall|state: &State| #[trigger] state@ == self@.state ==> call_requires(f, (state,)),
        ensures
            exists|state: &State| #[trigger] state@ == self@.state && call_ensures(f, (state,), r),
    {
        let state = &self.state;
        assert(state@ == self@.state);
        f(state)
    }

    /// The session's name.
    pub fn session(&self) -> (session: &str)
        ensures
            session@ == self@.session,
    {
        self.session.as_str()
    }

    pub fn surface(&self, id: SurfaceId) -> (surface: Option<&Surface>)
        ensures
            match surface {
                Some(surface) => self@.state.surfaces.contains_key(id) && *surface
                    == self@.state.surfaces[id],
                None => !self@.state.surfaces.contains_key(id),
            },
    {
        self.state.surfaces.get(&id)
    }

    pub fn surface_count(&self) -> (count: usize)
        ensures
            count == self@.state.surfaces.len(),
    {
        self.state.surfaces.len()
    }

    pub fn default_colors(&self) -> (colors: DefaultColors)
        ensures
            colors == self@.default_colors,
    {
        self.default_colors
    }

    /// Closes one tab. When it was the pane's last tab, the pane collapses
    /// out of its split tree, and emptied screens and workspaces go too.
    pub fn close_surface(&mut self, target: SurfaceId)
        requires
            old(self).wf(),
        ensures
            final(self).wf(),
            final(self)@ == old(self)@.closed(target),
    {
        let removed = ops::remove_surface(&mut self.state, target);
        proof {
            consistency::lemma_without_surface_wf(old(self)@.state, target);
        }
        if removed.is_some() {
            self.request(Effect::Kill(target));
            self.emit(MuxEvent::TreeChanged);
        }
        if self.state.workspaces.is_empty() {
            self.emit(MuxEvent::Empty);
        }
        assert(self@ =~= old(self)@.closed(target));
    }

    /// Closes a surface whose child was gone before it was attached.
    fn reap_if_dead(&mut self, id: SurfaceId, dead: bool)
        requires
            old(self).wf(),
        ensures
            final(self).wf(),
            final(self)@ == if dead {
                old(self)@.closed(id)
            } else {
                old(self)@
            },
    {
        if dead {
            self.close_surface(id);
        }
    }

    /// Takes note that a surface's child exited: the surface goes out of the
    /// tree, and everybody is told.
    pub fn surface_exited(&mut self, id: SurfaceId)
        requires
            old(self).wf(),
        ensures
            final(self).wf(),
            final(self)@ == old(self)@.exited(id),
    {
        let removed = ops::remove_surface(&mut self.state, id);
        proof {
            consistency::lemma_without_surface_wf(old(self)@.state, id);
        }
        if removed.is_some() {
            self.request(Effect::Kill(id));
        }
        self.emit(MuxEvent::SurfaceExited(id));
        if removed.is_some() {
            self.emit(MuxEvent::TreeChanged);
        }
        if self.state.workspaces.is_empty() {
            self.emit(MuxEvent::Empty);
        }
        assert(self@ =~= old(self)@.exited(id));
    }

    /// Closes every surface in `tabs`.
    fn close_surfaces(&mut self, tabs: Vec<SurfaceId>)
        requires
            old(self).wf(),
        ensures
            final(self).wf(),
            final(self)@ == old(self)@.closed_all(tabs@),
    {
        let ghost start = self@;
        let mut removed: Vec<SurfaceId> = Vec::new();
        let mut i: usize = 0;
        assert(tabs@.subrange(0, 0) =~= Seq::<SurfaceId>::empty());
        while i < tabs.len()
            invariant
                i <= tabs.len(),
                self.wf(),
                self@ == (MuxV { state: without_all(start.state, tabs@.subrange(0, i as int)), ..start }),
                removed@ == removed_of(start.state, tabs@.subrange(0, i as int)),
            decreases tabs.len() - i,
        {
            let ghost before = self@;
            assert(tabs@.subrange(0, i + 1).drop_last() =~= tabs@.subrange(0, i as int));
            let target: SurfaceId = tabs[i];
            if ops::remove_surface(&mut self.state, target).is_some() {
                removed.push(target);
            }
            proof {
                consistency::lemma_without_surface_wf(before.state, target);
            }
            i = i + 1;
        }
        assert(tabs@.subrange(0, tabs@.len() as int) =~= tabs@);
        let ghost stripped = self@;
        if !removed.is_empty() {
            let mut k: usize = 0;
            while k < removed.len()
                invariant
                    k <= removed.len(),
                    self.wf(),
                    self@ =~= stripped.emitting(kills(removed@.subrange(0, k as int))),
                decreases removed.len() - k,
            {
                self.request(Effect::Kill(removed[k]));
                assert(kills(removed@.subrange(0, k + 1)) =~= kills(
                    removed@.subrange(0, k as int),
                ) + seq![Effect::Kill(removed@[k as int])]);
                k = k + 1;
            }
            assert(removed@.subrange(0, removed@.len() as int) =~= removed@);
            self.emit(MuxEvent::TreeChanged);
        }
        if self.state.workspaces.is_empty() {
            self.emit(MuxEvent::Empty);
        }
        assert(self@ =~= start.closed_all(tabs@));
    }

    /// Closes a pane and every tab in it.
    pub fn close_pane(&mut self, target: PaneId)
        requires
            old(self).wf(),
        ensures
            final(self).wf(),
            final(self)@ == old(self)@.pane_closed(target),
    {
        let tabs = match self.state.panes.get(&target) {
            Some(pane) => pane.tabs.clone(),
            None => {
                return ;
            },
        };
        assert(tabs@ =~= self@.state.panes[target].tabs);
        self.close_surfaces(tabs);
    }

    /// Closes a screen and every pane and tab in it. Says whether there is
    /// such a screen.
    pub fn close_screen(&mut self, target: ScreenId) -> (found: bool)
        requires
            old(self).wf(),
        ensures
            final(self).wf(),
            found == old(self)@.state.screen_index(target) is Some,
            final(self)@ == old(self)@.screen_closed(target),
    {
        let Some((w, s)) = self.state.screen_index(target) else {
            return false;
        };
        let tabs = ops::screen_tabs(&self.state, &self.state.workspaces[w].screens[s]);
        self.close_surfaces(tabs);
        true
    }

    /// Closes a workspace and every screen, pane and tab in it. Says whether
    /// there is such a workspace.
    pub fn close_workspace(&mut self, target: WorkspaceId) -> (found: bool)
        requires
            old(self).wf(),
        ensures
            final(self).wf(),
            found == old(self)@.state.workspace_index(target) is Some,
            final(self)@ == old(self)@.workspace_closed(target),
    {
        let Some(w) = self.state.workspace_index(target) else {
            return false;
        };
        let ws = &self.state.workspaces[w];
        let mut tabs: Vec<SurfaceId> = Vec::new();
        let mut s: usize = 0;
        assert(ws.screens@.subrange(0, 0) =~= Seq::<Screen>::empty());
        while s < ws.screens.len()
            invariant
                s <= ws.screens.len(),
                tabs@ == screens_tabs(self@.state, ws.screens@.subrange(0, s as int)),
            decreases ws.screens.len() - s,
        {
            assert(ws.screens@.subrange(0, s + 1).drop_last() =~= ws.screens@.subrange(
                0,
                s as int,
            ));
            let mut more = ops::screen_tabs(&self.state, &ws.screens[s]);
            tabs.append(&mut more);
            s = s + 1;
        }
        assert(ws.screens@.subrange(0, ws.screens@.len() as int) =~= ws.screens@);
        self.close_surfaces(tabs);
        true
    }

    pub fn rename_workspace(&mut self, target: WorkspaceId, name: String) -> (renamed: bool)
        requires
            old(self).wf(),
        ensures
            final(self).wf(),
            renamed == old(self)@.state.workspace_index(target) is Some,
            final(self)@ == old(self)@.workspace_renamed(target, name@),
    {
        let Some(w) = self.state.workspace_index(target) else {
            return false;
        };
        let ghost next = self@.state.with_workspace_name(w as int, name@);
        self.state.workspaces[w].name = name;
        assert(self@.state =~= next);
        proof {
            assert(old(self)@.state.workspaces[w as int].wf());
            consistency::lemma_workspace_edit_wf(old(self)@.state, next, w as int);
        }
        self.emit(MuxEvent::TreeChanged);
        true
    }

    /// Names a pane. An empty name clears it.
    pub fn rename_pane(&mut self, target: PaneId, name: String) -> (renamed: bool)
        requires
            old(self).wf(),
        ensures
            final(self).wf(),
            renamed == old(self)@.state.panes.contains_key(target),
            final(self)@ == old(self)@.pane_renamed(target, name),
    {
        let ghost next = self@.state.with_pane_name(target, given_name(name));
        let Some(mut pane) = self.state.panes.remove(&target) else {
            assert(self@.state =~= old(self)@.state);
            return false;
        };
        pane.name = keep_name(name);
        self.state.panes.insert(target, pane);
        assert(self@.state =~= next);
        proof {
            assert(old(self)@.state.panes.contains_key(target));
            consistency::lemma_pane_edit_wf(old(self)@.state, next, target);
        }
        self.emit(MuxEvent::TreeChanged);
        true
    }

    /// Names a tab. An empty name clears it.
    pub fn rename_surface(&mut self, target: SurfaceId, name: String) -> (renamed: bool)
        requires
            old(self).wf(),
        ensures
            final(self).wf(),
            renamed == old(self)@.state.surfaces.contains_key(target),
            final(self)@ == old(self)@.surface_renamed(target, name),
    {
        let ghost next = self@.state.with_surface_name(target, given_name(name));
        let Some(mut surface) = self.state.surfaces.remove(&target) else {
            assert(self@.state =~= old(self)@.state);
            return false;
        };
        surface.name = keep_name(name);
        self.state.surfaces.insert(target, surface);
        assert(self@.state =~= next);
        proof {
            consistency::lemma_surfaces_apart(old(self)@.state, next);
        }
        self.emit(MuxEvent::TreeChanged);
        true
    }

    /// Names a screen. An empty name clears it.
    pub fn rename_screen(&mut self, target: ScreenId, name: String) -> (renamed: bool)
        requires
            old(self).wf(),
        ensures
            final(self).wf(),
            renamed == old(self)@.state.screen_index(target) is Some,
            final(self)@ == old(self)@.screen_renamed(target, name),
    {
        let Some((w, s)) = self.state.screen_index(target) else {
            return false;
        };
        let ghost next = self@.state.with_screen_name(w as int, s as int, given_name(name));
        self.state.workspaces[w].screens[s].name = keep_name(name);
        assert(self@.state.workspaces[w as int].screens =~= next.workspaces[w as int].screens);
        assert(self@.state =~= next);
        proof {
            let was = old(self)@.state;
            assert(was.has_screen(w as int, s as int));
            consistency::lemma_screen_update_wf(
                was,
                next,
                w as int,
                s as int,
                next.screen(w as int, s as int),
            );
        }
        self.emit(MuxEvent::TreeChanged);
        true
    }

    /// Makes `pane` the active pane of its screen, and that screen and
    /// workspace active. Says whether the pane is there.
    pub fn focus_pane(&mut self, pane: PaneId) -> (found: bool)
        requires
            old(self).wf(),
        ensures
            final(self).wf(),
            found == old(self)@.state.panes.contains_key(pane),
            final(self)@ == old(self)@.pane_focused(pane),
    {
        let active_at: u64 = self.next_active_at();
        let ghost was = self@.state;
        proof {
            if was.placed(pane) {
                let (w, s) = was.screen_of(pane)->0;
                assert(was.holds(w, s, pane));
            }
        }
        if !ops::focus(&mut self.state, pane) {
            return false;
        }
        proof {
            consistency::lemma_focused_wf(was, pane);
            consistency::lemma_stamped_wf(was.focused(pane), pane, active_at);
        }
        ops::stamp_pane(&mut self.state, pane, active_at);
        self.emit(MuxEvent::TreeChanged);
        true
    }

    /// Sets the deepest split ratio in `dir` on the path to `pane`. Says
    /// whether there is such a split.
    pub fn set_ratio(&mut self, pane: PaneId, dir: SplitDir, ratio: Ratio) -> (found: bool)
        requires
            old(self).wf(),
        ensures
            final(self).wf(),
            found == old(self)@.state.with_ratio(pane, dir, ratio.clamped()) is Some,
            final(self)@ == old(self)@.ratio_set(pane, dir, ratio),
    {
        let ratio = ratio.clamp();
        let ghost was = self@.state;
        let Some((w, s)) = self.state.screen_of(pane) else {
            return false;
        };
        let root = &mut self.state.workspaces[w].screens[s].root;
        let found = root.set_deepest_ratio(pane, dir, ratio);
        proof {
            let root = was.screen(w as int, s as int).root;
            crate::node::law_ratio_keeps_leaves(root, pane, dir, ratio);
        }
        if found {
            let ghost next = was.with_ratio(pane, dir, ratio)->0;
            assert(self@.state.workspaces[w as int].screens =~= next.workspaces[w as int].screens);
            assert(self@.state =~= next);
            proof {
                consistency::lemma_with_ratio_wf(was, pane, dir, ratio);
            }
            self.emit(MuxEvent::TreeChanged);
        } else {
            assert(self@.state.workspaces[w as int].screens =~= was.workspaces[w as int].screens);
            assert(self@.state =~= was);
        }
        found
    }

    /// Moves a tab to `index` in `pane`. The surface is kept alive; a pane
    /// that is emptied by the move collapses. Says whether anything moved.
    pub fn move_tab(&mut self, surface: SurfaceId, pane: PaneId, index: usize) -> (moved: bool)
        requires
            old(self).wf(),
        ensures
            final(self).wf(),
            moved == old(self)@.state.with_tab_moved(surface, pane, index as int) is Some,
            final(self)@ == old(self)@.tab_moved(surface, pane, index as int),
    {
        let active_at: u64 = self.next_active_at();
        let ghost was = self@.state;
        if !ops::move_tab_in_state(&mut self.state, surface, pane, index) {
            return false;
        }
        proof {
            consistency::lemma_with_tab_moved_wf(was, surface, pane, index as int);
            let next = was.with_tab_moved(surface, pane, index as int)->0;
            consistency::lemma_stamped_wf(next, pane, active_at);
        }
        ops::stamp_pane(&mut self.state, pane, active_at);
        self.emit(MuxEvent::TreeChanged);
        true
    }

    /// Reorders a workspace; the active workspace stays active. Says whether
    /// anything moved.
    pub fn move_workspace(&mut self, workspace: WorkspaceId, index: usize) -> (moved: bool)
        requires
            old(self).wf(),
        ensures
            final(self).wf(),
            moved == old(self)@.state.with_workspace_moved(workspace, index as int) is Some,
            final(self)@ == old(self)@.workspace_moved(workspace, index as int),
    {
        let ghost was = self@.state;
        let Some(old_idx) = self.state.workspace_index(workspace) else {
            return false;
        };
        let new_idx: usize = ops::landing(old_idx, index, self.state.workspaces.len());
        if new_idx == old_idx {
            return false;
        }
        let ws = self.state.workspaces.remove(old_idx);
        self.state.workspaces.insert(new_idx, ws);
        let active: usize = self.state.active_workspace;
        self.state.active_workspace = if active == old_idx {
            new_idx
        } else {
            let place: usize = if active > old_idx {
                active - 1
            } else {
                active
            };
            if place >= new_idx {
                place + 1
            } else {
                place
            }
        };
        let ghost next = was.with_workspace_moved(workspace, index as int)->0;
        assert(self@.state.workspaces =~= next.workspaces);
        assert(self@.state =~= next);
        proof {
            consistency::lemma_with_workspace_moved_wf(was, workspace, index as int);
        }
        self.emit(MuxEvent::TreeChanged);
        true
    }

    /// Selects a tab within a pane (the active pane by default) by index or
    /// step.
    pub fn select_tab(&mut self, pane: Option<PaneId>, index: Option<usize>, delta: Option<isize>)
        requires
            old(self).wf(),
        ensures
            final(self).wf(),
            final(self)@ == old(self)@.tab_selected(pane, index, delta),
    {
        let active_at: u64 = self.next_active_at();
        let ghost was = self@.state;
        let target = match pane {
            Some(pane) => Some(pane),
            None => self.state.active_pane(),
        };
        let Some(target) = target else {
            return ;
        };
        let Some(mut entry) = self.state.panes.remove(&target) else {
            assert(self@.state =~= was);
            return ;
        };
        assert(was.panes.contains_key(target));
        entry.active_tab = ops::select(entry.active_tab, entry.tabs.len(), index, delta);
        self.state.panes.insert(target, entry);
        let ghost next = was.with_tab_selected(target, index, delta);
        assert(self@.state =~= next);
        proof {
            consistency::lemma_pane_edit_wf(was, next, target);
            consistency::lemma_stamped_wf(next, target, active_at);
        }
        ops::stamp_pane(&mut self.state, target, active_at);
        self.emit(MuxEvent::TreeChanged);
    }

    /// Selects a screen in the active workspace by index or step.
    pub fn select_screen(&mut self, index: Option<usize>, delta: Option<isize>)
        requires
            old(self).wf(),
        ensures
            final(self).wf(),
            final(self)@ == old(self)@.screen_selected(index, delta),
    {
        let active_at: u64 = self.next_active_at();
        let ghost was = self@.state;
        let w: usize = self.state.active_workspace;
        if w >= self.state.workspaces.len() {
            return ;
        }
        assert(was.workspaces[w as int].wf());
        let ws = &mut self.state.workspaces[w];
        ws.active_screen = ops::select(ws.active_screen, ws.screens.len(), index, delta);
        let ghost next = was.with_screen_selected(index, delta);
        assert(self@.state =~= next);
        proof {
            consistency::lemma_workspace_edit_wf(was, next, w as int);
        }
        self.stamp_active(active_at);
        self.emit(MuxEvent::TreeChanged);
    }

    /// Selects a workspace by index or step.
    pub fn select_workspace(&mut self, index: Option<usize>, delta: Option<isize>)
        requires
            old(self).wf(),
        ensures
            final(self).wf(),
            final(self)@ == old(self)@.workspace_selected(index, delta),
    {
        let active_at: u64 = self.next_active_at();
        let ghost was = self@.state;
        let len: usize = self.state.workspaces.len();
        if len == 0 {
            return ;
        }
        self.state.active_workspace = ops::select(self.state.active_workspace, len, index, delta);
        let ghost next = was.with_workspace_selected(index, delta);
        assert(self@.state =~= next);
        proof {
            consistency::lemma_active_workspace_wf(was, next);
        }
        self.stamp_active(active_at);
        self.emit(MuxEvent::TreeChanged);
    }

    fn stamp_active(&mut self, active_at: u64)
        requires
            old(self).wf(),
        ensures
            final(self).wf(),
            final(self)@ == (MuxV {
                state: old(self)@.state.stamped_active(active_at),
                ..old(self)@
            }),
    {
        if let Some(pane) = self.state.active_pane() {
            proof {
                consistency::lemma_stamped_wf(self@.state, pane, active_at);
            }
            ops::stamp_pane(&mut self.state, pane, active_at);
        }
    }

    /// Asks for a terminal. `cwd` and `size` take precedence over the options.
    /// A surface that starts at its final size need not redraw at once.
    fn spawn_surface(&mut self, cwd: Option<String>, size: Option<(u16, u16)>, place: Place) -> (spawn:
        Spawn)
        requires
            old(self).wf(),
            old(self)@.ids_left(1),
        ensures
            final(self).wf(),
            final(self)@ == old(self)@.one_id_used(),
            spawn == (Spawn {
                id: old(self)@.next_id,
                work: old(self)@.pty_work(cwd, size),
                place,
            }),
    {
        proof {
            let n = self@.next_id;
            consistency::lemma_below_more(self@.state, n, (n + 1) as u64);
        }
        let id: SurfaceId = self.next_id();
        let cwd = match cwd {
            Some(cwd) => Some(cwd),
            None => match &self.surface_options.cwd {
                Some(cwd) => Some(cwd.clone()),
                None => None,
            },
        };
        let (cols, rows) = match size {
            Some((cols, rows)) => (clamp_one(cols), clamp_one(rows)),
            None => (self.surface_options.cols, self.surface_options.rows),
        };
        Spawn { id, work: SpawnWork::Pty { cwd, cols, rows }, place }
    }

    /// Asks for a browser page, over the live connection if there is one.
    fn spawn_browser_surface(&mut self, url: String, size: Option<(u16, u16)>, place: Place) -> (spawn:
        Spawn)
        requires
            old(self).wf(),
            old(self)@.ids_left(1),
        ensures
            final(self).wf(),
            final(self)@ == old(self)@.one_id_used(),
            spawn == (Spawn {
                id: old(self)@.next_id,
                work: old(self)@.browser_work(url, size),
                place,
            }),
    {
        proof {
            let n = self@.next_id;
            consistency::lemma_below_more(self@.state, n, (n + 1) as u64);
        }
        let id: SurfaceId = self.next_id();
        let size = match size {
            Some(size) => size,
            None => (self.surface_options.cols, self.surface_options.rows),
        };
        let connect = self.browser_runtime().is_none();
        Spawn {
            id,
            work: SpawnWork::Browser { url, size, cell_pixels: self.cell_pixels, connect },
            place,
        }
    }

    /// The browser connection, while it is open.
    pub fn browser_runtime(&self) -> (runtime: Option<&BrowserRuntime>)
        ensures
            match runtime {
                Some(runtime) => self@.live_runtime() == Some(runtime@),
                None => self@.live_runtime() is None,
            },
    {
        match &self.browser_runtime {
            Some(runtime) => if runtime.is_closed() {
                None
            } else {
                Some(runtime)
            },
            None => None,
        }
    }

    /// Takes over a fresh browser connection.
    pub fn set_browser_runtime(&mut self, runtime: BrowserRuntime)
        requires
            old(self).wf(),
            runtime.wf(),
        ensures
            final(self).wf(),
            final(self)@ == (MuxV { browser_runtime: Some(runtime@), ..old(self)@ }),
    {
        self.browser_runtime = Some(runtime);
    }

    /// Sends the events of a page to `surface`.
    pub fn register_page(&mut self, target_id: &str, session_id: &str, surface: SurfaceId)
        requires
            old(self).wf(),
        ensures
            final(self).wf(),
            final(self)@ == (MuxV {
                browser_runtime: match old(self)@.browser_runtime {
                    Some(runtime) => Some(runtime.registered(target_id@, session_id@, surface)),
                    None => None,
                },
                ..old(self)@
            }),
    {
        if let Some(mut runtime) = self.browser_runtime.take() {
            runtime.register(target_id, session_id, surface);
            self.browser_runtime = Some(runtime);
        }
    }

    /// Forgets a page. Says whether the browser still has to close it.
    pub fn close_page(&mut self, target_id: &str, session_id: &str) -> (close: bool)
        requires
            old(self).wf(),
        ensures
            final(self).wf(),
            close == old(self)@.live_runtime() is Some,
            final(self)@ == (MuxV {
                browser_runtime: match old(self)@.browser_runtime {
                    Some(runtime) => Some(runtime.unregistered(target_id@, session_id@)),
                    None => None,
                },
                ..old(self)@
            }),
    {
        match self.browser_runtime.take() {
            Some(mut runtime) => {
                let close = runtime.close_surface(target_id, session_id);
                self.browser_runtime = Some(runtime);
                close
            },
            None => false,
        }
    }

    /// Takes note of a browser event, and says which surfaces it is for.
    pub fn route_event(&mut self, event: &CdpEvent) -> (surfaces: Vec<SurfaceId>)
        requires
            old(self).wf(),
        ensures
            final(self).wf(),
            match old(self)@.browser_runtime {
                Some(runtime) => surfaces@ == runtime.recipients(*event) && final(self)@ == (MuxV {
                    browser_runtime: Some(runtime.after(*event)),
                    ..old(self)@
                }),
                None => surfaces@.len() == 0 && final(self)@ == old(self)@,
            },
    {
        match self.browser_runtime.take() {
            Some(mut runtime) => {
                let surfaces = runtime.route(event);
                self.browser_runtime = Some(runtime);
                surfaces
            },
            None => Vec::new(),
        }
    }

    /// Working directory of a pane's active surface, if reported.
    fn pane_cwd(&self, pane: PaneId) -> (cwd: Option<String>)
        ensures
            cwd == self@.pane_cwd(pane),
    {
        match self.pane_surface(pane) {
            Some(surface) => match &surface.pwd {
                Some(pwd) => Some(pwd.clone()),
                None => None,
            },
            None => None,
        }
    }

    /// Size of a pane's active surface.
    fn pane_size(&self, pane: PaneId) -> (size: Option<(u16, u16)>)
        ensures
            size == self@.pane_size(pane),
    {
        match self.pane_surface(pane) {
            Some(surface) => Some((surface.cols, surface.rows)),
            None => None,
        }
    }

    fn pane_surface(&self, pane: PaneId) -> (surface: Option<&Surface>)
        ensures
            match surface {
                Some(surface) => self@.pane_surface(pane) == Some(*surface),
                None => self@.pane_surface(pane) is None,
            },
    {
        match self.state.panes.get(&pane) {
            Some(entry) => match entry.active_surface() {
                Some(active) => self.state.surfaces.get(&active),
                None => None,
            },
            None => None,
        }
    }

    /// Asks for a workspace with one screen that holds one pane with one tab.
    pub fn new_workspace(&mut self, name: Option<String>, size: Option<(u16, u16)>) -> (spawn: Spawn)
        requires
            old(self).wf(),
            old(self)@.ids_left(1),
        ensures
            final(self).wf(),
            final(self)@ == old(self)@.one_id_used(),
            spawn == old(self)@.workspace_spawn(name, size),
    {
        self.spawn_surface(None, size, Place::Workspace { name })
    }

    /// Asks for a screen in a workspace (the active one by default). Without
    /// any workspace, one is made.
    pub fn new_screen(&mut self, workspace: Option<WorkspaceId>, size: Option<(u16, u16)>) -> (spawn:
        Result<Spawn, MuxError>)
        requires
            old(self).wf(),
            old(self)@.ids_left(1),
        ensures
            final(self).wf(),
            spawn == old(self)@.screen_request(workspace, size),
            final(self)@ == if spawn is Ok {
                old(self)@.one_id_used()
            } else {
                old(self)@
            },
    {
        match workspace {
            Some(id) => {
                if self.state.workspace_index(id).is_none() {
                    return Err(MuxError::UnknownWorkspace(id));
                }
            },
            None => {
                if self.state.workspaces.is_empty() {
                    return Ok(self.new_workspace(None, size));
                }
            },
        }
        Ok(self.spawn_surface(None, size, Place::Screen { workspace }))
    }

    /// Asks for a tab in a pane (the active one by default), in the
    /// directory and at the size of the tab that is active there. Without any
    /// pane, a workspace is made.
    pub fn new_tab(
        &mut self,
        pane: Option<PaneId>,
        cwd: Option<String>,
        size: Option<(u16, u16)>,
    ) -> (spawn: Result<Spawn, MuxError>)
        requires
            old(self).wf(),
            old(self)@.ids_left(1),
        ensures
            final(self).wf(),
            spawn == old(self)@.tab_request(pane, cwd, size),
            final(self)@ == if spawn is Ok {
                old(self)@.one_id_used()
            } else {
                old(self)@
            },
    {
        let target = match self.tab_target(pane) {
            Ok(target) => target,
            Err(error) => {
                return Err(error);
            },
        };
        let Some(target) = target else {
            return Ok(self.new_workspace(None, size));
        };
        let cwd = match cwd {
            Some(cwd) => Some(cwd),
            None => self.pane_cwd(target),
        };
        let size = match size {
            Some(size) => Some(size),
            None => self.pane_size(target),
        };
        Ok(self.spawn_surface(cwd, size, Place::Tab { pane: target, browser: false }))
    }

    /// Asks for a browser tab in a pane (the active one by default). Without
    /// any pane, a workspace is made around it.
    pub fn new_browser_tab(
        &mut self,
        url: String,
        pane: Option<PaneId>,
        size: Option<(u16, u16)>,
    ) -> (spawn: Result<Spawn, MuxError>)
        requires
            old(self).wf(),
            old(self)@.ids_left(1),
        ensures
            final(self).wf(),
            spawn == old(self)@.browser_request(url, pane, size),
            final(self)@ == if spawn is Ok {
                old(self)@.one_id_used()
            } else {
                old(self)@
            },
    {
        let target = match self.tab_target(pane) {
            Ok(target) => target,
            Err(error) => {
                return Err(error);
            },
        };
        let Some(target) = target else {
            return Ok(self.spawn_browser_surface(url, size, Place::Workspace { name: None }));
        };
        let size = match size {
            Some(size) => Some(size),
            None => self.pane_size(target),
        };
        Ok(self.spawn_browser_surface(url, size, Place::Tab { pane: target, browser: true }))
    }

    fn tab_target(&self, pane: Option<PaneId>) -> (target: Result<Option<PaneId>, MuxError>)
        ensures
            target == self@.tab_target(pane),
    {
        match pane {
            Some(id) => if self.state.panes.contains_key(&id) {
                Ok(Some(id))
            } else {
                Err(MuxError::UnknownPane(id))
            },
            None => Ok(self.state.active_pane()),
        }
    }

    /// Asks for a pane after `target`, in its directory and at half its size
    /// unless a size is given.
    pub fn split(&mut self, target: PaneId, dir: SplitDir, size: Option<(u16, u16)>) -> (spawn: Spawn)
        requires
            old(self).wf(),
            old(self)@.ids_left(1),
        ensures
            final(self).wf(),
            final(self)@ == old(self)@.one_id_used(),
            spawn == old(self)@.split_request(target, dir, size),
    {
        let cwd = self.pane_cwd(target);
        let size = match size {
            Some(size) => Some(size),
            None => match self.pane_size(target) {
                Some((cols, rows)) => match dir {
                    SplitDir::Right => Some((half(cols), rows)),
                    SplitDir::Down => Some((cols, half(rows))),
                },
                None => None,
            },
        };
        self.spawn_surface(cwd, size, Place::Split { target, dir })
    }

    /// Says whether `n` more ids can be given out.
    pub fn has_ids(&self, n: u64) -> (left: bool)
        ensures
            left == self@.ids_left(n),
    {
        n <= u64::MAX - self.next_id
    }

    /// Says whether `id` was given out for a surface that is not attached
    /// yet.
    pub fn is_awaited(&self, id: SurfaceId) -> (awaited: bool)
        requires
            self.wf(),
        ensures
            awaited == self@.awaits(id),
    {
        id < self.next_id && !self.state.surfaces.contains_key(&id) && self.state.pane_of(
            id,
        ).is_none()
    }

    /// Attaches a surface that was asked for and is running now. Where its
    /// place is gone, the surface is ended.
    pub fn attach(&mut self, place: Place, surface: Surface) -> (attached: Result<
        SurfaceId,
        MuxError,
    >)
        requires
            old(self).wf(),
            old(self)@.ids_left(3),
            old(self)@.awaits(surface.id),
        ensures
            final(self).wf(),
            final(self)@ == old(self)@.attached(place, surface).0,
            attached == old(self)@.attached(place, surface).1,
    {
        proof {
            lemma_known_wf(self@, surface);
        }
        match place {
            Place::Workspace { name } => self.attach_workspace(name, surface),
            Place::Screen { workspace } => self.attach_screen(workspace, surface),
            Place::Tab { pane, browser } => self.attach_tab(pane, browser, surface),
            Place::Split { target, dir } => self.attach_split(target, dir, surface),
        }
    }

    /// A fresh single-tab pane around `surface`.
    fn make_pane(&mut self, surface: SurfaceId) -> (made: (PaneId, Pane))
        requires
            old(self)@.ids_left(1),
        ensures
            made.0 == old(self)@.next_id,
            made.1@ == fresh_pane(made.0, surface, old(self)@.next_active_at),
            final(self)@ == old(self)@.one_id_used().ticked(),
    {
        let id: PaneId = self.next_id();
        let active_at: u64 = self.next_active_at();
        let mut tabs: Vec<SurfaceId> = Vec::new();
        tabs.push(surface);
        let pane = Pane { id, name: None, tabs, active_tab: 0, active_at };
        assert(pane@ =~= fresh_pane(id, surface, active_at));
        (id, pane)
    }

    fn attach_workspace(&mut self, name: Option<String>, surface: Surface) -> (attached: Result<
        SurfaceId,
        MuxError,
    >)
        requires
            old(self).wf(),
            old(self)@.ids_left(3),
            old(self)@.awaits(surface.id),
            old(self)@.with_surface(surface).wf(),
            old(self)@.with_surface(surface).below(old(self)@.next_id),
        ensures
            final(self).wf(),
            final(self)@ == old(self)@.attached(Place::Workspace { name }, surface).0,
            attached == old(self)@.attached(Place::Workspace { name }, surface).1,
    {
        let ghost was = self@;
        let ghost known = was.with_surface(surface);
        let ghost n = was.next_id;
        let ghost at = was.next_active_at;
        let ghost ws_name = was.workspace_name(name);
        let id: SurfaceId = surface.id;
        let dead = surface.dead;
        let (pane_id, pane) = self.make_pane(id);
        let screen_id: ScreenId = self.next_id();
        let ws_id: WorkspaceId = self.next_id();
        let count: usize = self.state.workspaces.len();
        let name = match name {
            Some(name) => name,
            None => {
                assert(count + 1 <= u64::MAX) by {
                    lemma_count_fits(was.state, n);
                }
                text::decimal_text(count as u64 + 1)
            },
        };
        self.state.surfaces.insert(id, surface);
        self.state.panes.insert(pane_id, pane);
        let mut screens: Vec<Screen> = Vec::new();
        screens.push(
            Screen { id: screen_id, name: None, root: Node::Leaf(pane_id), active_pane: pane_id },
        );
        let workspace = Workspace { id: ws_id, name, screens, active_screen: 0 };
        assert(workspace@.screens =~= seq![ops::lone_screen(screen_id, pane_id)]);
        self.state.workspaces.push(workspace);
        self.state.active_workspace = count;
        let ghost next = known.with_workspace(ws_id, ws_name, screen_id, pane_id).with_pane(
            pane_id,
            id,
            at,
        );
        assert(self@.state =~= next);
        proof {
            lemma_unowned(was, surface);
            consistency::lemma_with_workspace_wf(
                known,
                ws_id,
                ws_name,
                screen_id,
                pane_id,
                id,
                at,
            );
            consistency::lemma_below_more(known, n, (n + 3) as u64);
            assert(next.below((n + 3) as u64));
        }
        self.emit(MuxEvent::TreeChanged);
        self.reap_if_dead(id, dead);
        Ok(id)
    }

    fn attach_screen(&mut self, workspace: Option<WorkspaceId>, surface: Surface) -> (attached:
        Result<SurfaceId, MuxError>)
        requires
            old(self).wf(),
            old(self)@.ids_left(3),
            old(self)@.awaits(surface.id),
            old(self)@.with_surface(surface).wf(),
            old(self)@.with_surface(surface).below(old(self)@.next_id),
        ensures
            final(self).wf(),
            final(self)@ == old(self)@.attached(Place::Screen { workspace }, surface).0,
            attached == old(self)@.attached(Place::Screen { workspace }, surface).1,
    {
        let ghost was = self@;
        let ghost known = was.with_surface(surface);
        let ghost n = was.next_id;
        let ghost at = was.next_active_at;
        let id: SurfaceId = surface.id;
        let dead = surface.dead;
        let (pane_id, pane) = self.make_pane(id);
        let screen_id: ScreenId = self.next_id();
        proof {
            consistency::lemma_below_more(was.state, n, (n + 2) as u64);
            consistency::lemma_below_more(known, n, (n + 2) as u64);
        }
        let target = match workspace {
            Some(ws) => self.state.workspace_index(ws),
            None => if self.state.active_workspace < self.state.workspaces.len() {
                Some(self.state.active_workspace)
            } else {
                None
            },
        };
        let Some(w) = target else {
            self.request(Effect::Kill(id));
            return Err(MuxError::WorkspaceDisappeared);
        };
        self.state.surfaces.insert(id, surface);
        self.state.panes.insert(pane_id, pane);
        let ws = &mut self.state.workspaces[w];
        ws.active_screen = ws.screens.len();
        ws.screens.push(
            Screen { id: screen_id, name: None, root: Node::Leaf(pane_id), active_pane: pane_id },
        );
        let ghost next = known.with_screen(w as int, screen_id, pane_id).with_pane(pane_id, id, at);
        assert(self@.state =~= next);
        proof {
            lemma_unowned(was, surface);
            consistency::lemma_with_screen_wf(known, w as int, screen_id, pane_id, id, at);
            assert(next.below((n + 2) as u64));
        }
        self.emit(MuxEvent::TreeChanged);
        self.reap_if_dead(id, dead);
        Ok(id)
    }

    fn attach_tab(&mut self, pane: PaneId, browser: bool, surface: Surface) -> (attached: Result<
        SurfaceId,
        MuxError,
    >)
        requires
            old(self).wf(),
            old(self)@.awaits(surface.id),
            old(self)@.with_surface(surface).wf(),
            old(self)@.with_surface(surface).below(old(self)@.next_id),
        ensures
            final(self).wf(),
            final(self)@ == old(self)@.attached(Place::Tab { pane, browser }, surface).0,
            attached == old(self)@.attached(Place::Tab { pane, browser }, surface).1,
    {
        let ghost was = self@;
        let ghost known = was.with_surface(surface);
        let id: SurfaceId = surface.id;
        let dead = surface.dead;
        let active_at: u64 = self.next_active_at();
        let Some(mut entry) = self.state.panes.remove(&pane) else {
            assert(self@.state =~= was.state);
            self.request(Effect::Kill(id));
            return Err(
                if browser {
                    MuxError::BrowserPaneDisappeared
                } else {
                    MuxError::PaneDisappeared
                },
            );
        };
        let ghost p = was.state.panes[pane];
        assert(was.state.panes.contains_key(pane));
        entry.active_tab = entry.tabs.len();
        entry.tabs.push(id);
        entry.active_at = active_at;
        assert(p.tabs.insert(p.tabs.len() as int, id) =~= p.tabs.push(id));
        self.state.panes.insert(pane, entry);
        self.state.surfaces.insert(id, surface);
        let ghost put = known.with_tab(pane, id, p.tabs.len() as int);
        let ghost next = put.stamped(pane, active_at);
        assert(self@.state =~= next);
        proof {
            lemma_unowned(was, surface);
            consistency::lemma_with_tab_wf(known, pane, id, p.tabs.len() as int);
            consistency::lemma_stamped_wf(put, pane, active_at);
            assert(put.below(was.next_id));
        }
        self.emit(MuxEvent::TreeChanged);
        self.reap_if_dead(id, dead);
        Ok(id)
    }

    fn attach_split(&mut self, target: PaneId, dir: SplitDir, surface: Surface) -> (attached: Result<
        SurfaceId,
        MuxError,
    >)
        requires
            old(self).wf(),
            old(self)@.ids_left(3),
            old(self)@.awaits(surface.id),
            old(self)@.with_surface(surface).wf(),
            old(self)@.with_surface(surface).below(old(self)@.next_id),
        ensures
            final(self).wf(),
            final(self)@ == old(self)@.attached(Place::Split { target, dir }, surface).0,
            attached == old(self)@.attached(Place::Split { target, dir }, surface).1,
    {
        let ghost was = self@;
        let ghost known = was.with_surface(surface);
        let ghost n = was.next_id;
        let ghost at = was.next_active_at;
        let id: SurfaceId = surface.id;
        let dead = surface.dead;
        let place = self.state.screen_of(target);
        proof {
            consistency::lemma_below_more(was.state, n, (n + 1) as u64);
            consistency::lemma_below_more(known, n, (n + 1) as u64);
            consistency::lemma_same_tree(was.state, known);
            assert(known.screen_of(target) == was.state.screen_of(target));
        }
        let Some((w, s)) = place else {
            self.next_id();
            self.request(Effect::Kill(id));
            return Err(MuxError::PaneNotFound(target));
        };
        let (pane_id, pane) = self.make_pane(id);
        self.state.surfaces.insert(id, surface);
        self.state.panes.insert(pane_id, pane);
        let screen = &mut self.state.workspaces[w].screens[s];
        screen.root.split_leaf(target, dir, pane_id);
        screen.active_pane = pane_id;
        let ghost next = known.with_split(target, dir, pane_id).with_pane(pane_id, id, at);
        assert(self@.state.workspaces[w as int].screens =~= next.workspaces[w as int].screens);
        assert(self@.state =~= next);
        proof {
            lemma_unowned(was, surface);
            assert(known.placed(target)) by {
                assert(known.screen_of(target) is Some);
            }
            consistency::lemma_with_split_wf(known, target, dir, pane_id, id, at);
            assert(next.below((n + 1) as u64));
        }
        self.emit(MuxEvent::TreeChanged);
        self.reap_if_dead(id, dead);
        Ok(id)
    }

    /// Resizes a surface, and tells everybody the final size when it changes.
    /// Says whether it did.
    pub fn resize_surface(&mut self, id: SurfaceId, cols: u16, rows: u16) -> (changed: Result<
        bool,
        MuxError,
    >)
        requires
            old(self).wf(),
        ensures
            final(self).wf(),
            changed == old(self)@.resized(id, cols, rows).1,
            final(self)@ == old(self)@.resized(id, cols, rows).0,
    {
        let ghost was = self@;
        let cols: u16 = clamp_one(cols);
        let rows: u16 = clamp_one(rows);
        let Some(mut surface) = self.state.surfaces.remove(&id) else {
            assert(self@.state =~= was.state);
            return Err(MuxError::UnknownSurface(id));
        };
        let changed = surface.cols != cols || surface.rows != rows;
        surface.cols = cols;
        surface.rows = rows;
        self.state.surfaces.insert(id, surface);
        let ghost next = was.state.with_surface_size(id, (cols, rows));
        assert(self@.state =~= next);
        proof {
            consistency::lemma_surfaces_apart(was.state, next);
        }
        self.request(Effect::Resize { surface: id, cols, rows });
        if changed {
            self.emit(MuxEvent::SurfaceResized { surface: id, cols, rows });
        }
        assert(self@ =~= was.resized(id, cols, rows).0);
        Ok(changed)
    }

    /// Takes note of what a surface reports of itself.
    pub fn update_surface(&mut self, id: SurfaceId, title: String, pwd: Option<String>, dead: bool)
        requires
            old(self).wf(),
        ensures
            final(self).wf(),
            final(self)@ == if old(self)@.state.surfaces.contains_key(id) {
                MuxV {
                    state: StateV {
                        surfaces: old(self)@.state.surfaces.insert(
                            id,
                            Surface { title, pwd, dead, ..old(self)@.state.surfaces[id] },
                        ),
                        ..old(self)@.state
                    },
                    ..old(self)@
                }
            } else {
                old(self)@
            },
    {
        let ghost was = self@;
        let Some(mut surface) = self.state.surfaces.remove(&id) else {
            assert(self@.state =~= was.state);
            return ;
        };
        surface.title = title;
        surface.pwd = pwd;
        surface.dead = dead;
        self.state.surfaces.insert(id, surface);
        proof {
            consistency::lemma_surfaces_apart(was.state, self@.state);
        }
    }

    /// The surfaces, in some order.
    pub fn surface_ids(&self) -> (ids: Vec<SurfaceId>)
        ensures
            goes_through(ids@, self@.state),
    {
        let mut ids: Vec<SurfaceId> = Vec::new();
        for id in keys: self.state.surfaces.keys()
            invariant
                ids@.len() == keys.index(),
                forall|i: int| 0 <= i < ids@.len() ==> #[trigger] ids@[i] == *keys.seq()[i],
        {
            ids.push(*id);
        }
        proof {
            let order = vstd::std_specs::iter::IteratorSpec::remaining(
                &self.state.surfaces.keys(),
            );
            assert(order.no_duplicates());
            assert(order.unref().to_set() == self.state.surfaces@.dom());
            assert forall|id: SurfaceId| #[trigger]
                ids@.contains(id) <==> self@.state.surfaces.contains_key(id) by {
                if ids@.contains(id) {
                    let i = ids@.index_of(id);
                    assert(order.unref()[i] == id);
                    assert(order.unref().to_set().contains(id));
                }
                if self@.state.surfaces.contains_key(id) {
                    assert(order.unref().to_set().contains(id));
                    let i = order.unref().index_of(id);
                    assert(ids@[i] == id);
                }
            }
        }
        ids
    }

    /// Ends every surface, and the browser when it was launched for the
    /// session.
    pub fn shutdown(&mut self)
        requires
            old(self).wf(),
        ensures
            final(self).wf(),
            exists|order: Seq<SurfaceId>| #[trigger]
                goes_through(order, old(self)@.state) && final(self)@ == (MuxV {
                    browser_runtime: None,
                    ..old(self)@
                }).emitting(
                    kills(order) + if old(self)@.browser_runtime is Some
                        && old(self)@.browser_runtime->0.source == BrowserSource::Launched {
                        seq![Effect::StopBrowser]
                    } else {
                        seq![]
                    },
                ),
    {
        let ghost was = self@;
        let ids = self.surface_ids();
        let mut i: usize = 0;
        while i < ids.len()
            invariant
                i <= ids.len(),
                self.wf(),
                self@ =~= was.emitting(kills(ids@.subrange(0, i as int))),
            decreases ids.len() - i,
        {
            self.request(Effect::Kill(ids[i]));
            assert(kills(ids@.subrange(0, i + 1)) =~= kills(ids@.subrange(0, i as int))
                + seq![Effect::Kill(ids@[i as int])]);
            i = i + 1;
        }
        assert(ids@.subrange(0, ids@.len() as int) =~= ids@);
        if let Some(mut runtime) = self.browser_runtime.take() {
            if runtime.shutdown() {
                self.request(Effect::StopBrowser);
            }
        }
        assert(goes_through(ids@, was.state));
        assert(self@.outbox =~= was.outbox + (kills(ids@) + if was.browser_runtime is Some
            && was.browser_runtime->0.source == BrowserSource::Launched {
            seq![Effect::StopBrowser]
        } else {
            seq![]
        }));
    }

    /// Sets the size of a cell in pixels, and tells every surface when it
    /// changes.
    pub fn set_cell_pixel_size(&mut self, width_px: u16, height_px: u16)
        requires
            old(self).wf(),
        ensures
            final(self).wf(),
            ({
                let next = (browser::at_least_one(width_px), browser::at_least_one(height_px));
                if old(self)@.cell_pixels == next {
                    final(self)@ == old(self)@
                } else {
                    exists|order: Seq<SurfaceId>| #[trigger]
                        goes_through(order, old(self)@.state) && final(self)@ == (MuxV {
                            cell_pixels: next,
                            ..old(self)@
                        }).emitting(cell_effects(order, next))
                }
            }),
    {
        let width: u16 = clamp_one(width_px);
        let height: u16 = clamp_one(height_px);
        if self.cell_pixels.0 == width && self.cell_pixels.1 == height {
            return ;
        }
        self.cell_pixels = (width, height);
        let ghost was = self@;
        let ids = self.surface_ids();
        let mut i: usize = 0;
        while i < ids.len()
            invariant
                i <= ids.len(),
                self.wf(),
                self@ =~= was.emitting(cell_effects(ids@.subrange(0, i as int), (width, height))),
            decreases ids.len() - i,
        {
            self.request(Effect::SetCellPixels { surface: ids[i], width, height });
            assert(cell_effects(ids@.subrange(0, i + 1), (width, height)) =~= cell_effects(
                ids@.subrange(0, i as int),
                (width, height),
            ) + seq![Effect::SetCellPixels { surface: ids@[i as int], width, height }]);
            i = i + 1;
        }
        assert(ids@.subrange(0, ids@.len() as int) =~= ids@);
        assert(goes_through(ids@, old(self)@.state));
    }

    /// Sets the default colors, and tells every surface.
    pub fn set_default_colors(&mut self, colors: DefaultColors)
        requires
            old(self).wf(),
        ensures
            final(self).wf(),
            old(self)@.recolored(colors, final(self)@),
    {
        self.default_colors = colors;
        let ghost was = self@;
        let ids = self.surface_ids();
        let mut i: usize = 0;
        while i < ids.len()
            invariant
                i <= ids.len(),
                self.wf(),
                self@ =~= was.emitting(color_effects(ids@.subrange(0, i as int), colors)),
            decreases ids.len() - i,
        {
            let surface: SurfaceId = ids[i];
            self.request(Effect::SetColors { surface, colors });
            self.emit(MuxEvent::SurfaceOutput(surface));
            assert(ids@.subrange(0, i + 1).drop_last() =~= ids@.subrange(0, i as int));
            i = i + 1;
        }
        assert(ids@.subrange(0, ids@.len() as int) =~= ids@);
        assert(goes_through(ids@, old(self)@.state));
    }
}

/// A pane with the one tab `surface`.
pub open spec fn fresh_pane(id: PaneId, surface: SurfaceId, active_at: u64) -> PaneV {
    PaneV { id, name: None, tabs: seq![surface], active_tab: 0, active_at }
}

/// An awaited surface can become known.
proof fn lemma_known_wf(mux: MuxV, surface: Surface)
    requires
        mux.wf(),
        mux.awaits(surface.id),
    ensures
        mux.with_surface(surface).wf(),
        mux.with_surface(surface).below(mux.next_id),
{
    consistency::lemma_surfaces_apart(mux.state, mux.with_surface(surface));
    assert(mux.with_surface(surface).below(mux.next_id));
}

/// An awaited surface is in no pane.
proof fn lemma_unowned(mux: MuxV, surface: Surface)
    requires
        mux.awaits(surface.id),
    ensures
        forall|q: PaneId| !mux.with_surface(surface).owns(q, surface.id),
{
    assert forall|q: PaneId| !mux.with_surface(surface).owns(q, surface.id) by {
        assert(mux.with_surface(surface).owns(q, surface.id) == mux.state.owns(q, surface.id));
    }
}

/// There are no more workspaces than ids.
proof fn lemma_count_fits(state: StateV, n: u64)
    requires
        state.ids_wf(),
        state.below(n),
    ensures
        state.workspaces.len() <= n,
{
    let ids = Seq::new(state.workspaces.len(), |i: int| state.workspaces[i].id as int);
    let all = vstd::set_lib::set_int_range(0, n as int);
    assert forall|i: int| 0 <= i < ids.len() implies state.is_workspace(
        i,
        #[trigger] ids[i] as u64,
    ) by {}
    assert(ids.no_duplicates());
    ids.unique_seq_to_set();
    vstd::set_lib::lemma_int_range(0, n as int);
    assert(ids.to_set().subset_of(all)) by {
        assert forall|id: int| ids.to_set().contains(id) implies all.contains(id) by {
            let i = ids.index_of(id);
            assert(state.is_workspace(i, ids[i] as u64));
        }
    }
    vstd::set_lib::lemma_len_subset(ids.to_set(), all);
}

} // verus!
