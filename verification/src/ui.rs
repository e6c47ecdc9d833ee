//! What is on the screen: panes, menus, prompts, selections.

use vstd::prelude::*;

use crate::geometry::Rect;
use crate::node::{PaneId, ScreenId, SplitDir, SurfaceId, WorkspaceId};
use crate::search;

verus! {

/// A clickable region of the current frame. Left-click performs the action;
/// right-click opens the matching context menu where one exists.
#[allow(inconsistent_fields)]
#[derive(Debug, Clone, Copy, PartialEq)]
pub enum Hit {
    /// Sidebar workspace entry.
    Workspace { index: usize, id: WorkspaceId },
    NewWorkspace,
    /// Status-bar screen entry.
    ScreenEntry { index: usize, id: ScreenId },
    NewScreen,
    /// Pane tab-bar entry.
    Tab { pane: PaneId, index: usize },
    NewTab { pane: PaneId },
    /// A pane's scrollbar column.
    Scrollbar { surface: SurfaceId, track: Rect },
    /// Sidebar right border.
    SidebarResize,
    /// Pane border resize handle.
    PaneResize {
        horizontal: Option<(PaneId, PaneEdge)>,
        vertical: Option<(PaneId, PaneEdge)>,
    },
    /// Scrolls a pane's tab bar.
    TabScroll { pane: PaneId, delta: isize },
}

#[derive(Debug, Clone, Copy, PartialEq, Eq, Structural)]
pub enum PaneEdge {
    Left,
    Right,
    Top,
    Bottom,
}

/// One pane's screen real estate for the current frame: a border box whose
/// top row is the tab bar, the terminal area inside it, and the scrollbar
/// track. Rects too small for a box have no bar, and the content fills them.
#[derive(Debug, Clone, Copy)]
pub struct PaneArea {
    pub pane: PaneId,
    pub surface: SurfaceId,
    pub rect: Rect,
    pub bar: Option<Rect>,
    pub content: Rect,
    pub track: Option<Rect>,
}

/// A context-menu entry: what activating it does.
#[derive(Debug, Clone, Copy, PartialEq, Eq, Structural)]
pub enum MenuAction {
    RenameWorkspace(WorkspaceId),
    CopyWorkspaceId(WorkspaceId),
    CloseWorkspace(WorkspaceId),
    RenameScreen(ScreenId),
    CloseScreen(ScreenId),
    RenameTab(PaneId),
    CopyTabId(PaneId),
    CopyPaneId(PaneId),
    NewTab(PaneId),
    NewBrowserTab(PaneId),
    SplitRight(PaneId),
    SplitDown(PaneId),
    CloseTab(PaneId),
    ClosePane(PaneId),
}

impl MenuAction {
    pub open spec fn text(self) -> Seq<char> {
        match self {
            MenuAction::RenameWorkspace(_) => "Rename workspace"@,
            MenuAction::CopyWorkspaceId(_) => "Copy workspace id"@,
            MenuAction::CloseWorkspace(_) => "Close workspace"@,
            MenuAction::RenameScreen(_) => "Rename screen"@,
            MenuAction::CloseScreen(_) => "Close screen"@,
            MenuAction::RenameTab(_) => "Rename tab"@,
            MenuAction::CopyTabId(_) => "Copy tab id"@,
            MenuAction::CopyPaneId(_) => "Copy pane id"@,
            MenuAction::NewTab(_) => "New tab"@,
            MenuAction::NewBrowserTab(_) => "New browser tab"@,
            MenuAction::SplitRight(_) => "Split right"@,
            MenuAction::SplitDown(_) => "Split down"@,
            MenuAction::CloseTab(_) => "Close tab"@,
            MenuAction::ClosePane(_) => "Close pane"@,
        }
    }

    pub fn label(&self) -> (label: &'static str)
        ensures
            label@ == self.text(),
    {
        match self {
            MenuAction::RenameWorkspace(_) => "Rename workspace",
            MenuAction::CopyWorkspaceId(_) => "Copy workspace id",
            MenuAction::CloseWorkspace(_) => "Close workspace",
            MenuAction::RenameScreen(_) => "Rename screen",
            MenuAction::CloseScreen(_) => "Close screen",
            MenuAction::RenameTab(_) => "Rename tab",
            MenuAction::CopyTabId(_) => "Copy tab id",
            MenuAction::CopyPaneId(_) => "Copy pane id",
            MenuAction::NewTab(_) => "New tab",
            MenuAction::NewBrowserTab(_) => "New browser tab",
            MenuAction::SplitRight(_) => "Split right",
            MenuAction::SplitDown(_) => "Split down",
            MenuAction::CloseTab(_) => "Close tab",
            MenuAction::ClosePane(_) => "Close pane",
        }
    }

    /// The number of cells of a label.
    pub open spec fn width(self) -> u16 {
        match self {
            MenuAction::RenameWorkspace(_) => 16,
            MenuAction::CopyWorkspaceId(_) => 17,
            MenuAction::CloseWorkspace(_) => 15,
            MenuAction::RenameScreen(_) => 13,
            MenuAction::CloseScreen(_) => 12,
            MenuAction::RenameTab(_) => 10,
            MenuAction::CopyTabId(_) => 11,
            MenuAction::CopyPaneId(_) => 12,
            MenuAction::NewTab(_) => 7,
            MenuAction::NewBrowserTab(_) => 15,
            MenuAction::SplitRight(_) => 11,
            MenuAction::SplitDown(_) => 10,
            MenuAction::CloseTab(_) => 9,
            MenuAction::ClosePane(_) => 10,
        }
    }
}

/// A label is as wide as its text is long.
pub proof fn law_label_width(action: MenuAction)
    ensures
        action.width() == action.text().len(),
{
    reveal_strlit("Rename workspace");
    reveal_strlit("Copy workspace id");
    reveal_strlit("Close workspace");
    reveal_strlit("Rename screen");
    reveal_strlit("Close screen");
    reveal_strlit("Rename tab");
    reveal_strlit("Copy tab id");
    reveal_strlit("Copy pane id");
    reveal_strlit("New tab");
    reveal_strlit("New browser tab");
    reveal_strlit("Split right");
    reveal_strlit("Split down");
    reveal_strlit("Close tab");
    reveal_strlit("Close pane");
}

/// The widest label.
pub open spec fn widest(items: Seq<MenuAction>) -> int
    decreases items.len(),
{
    if items.len() == 0 {
        0
    } else {
        let before = widest(items.drop_last());
        if items.last().text().len() > before {
            items.last().text().len() as int
        } else {
            before
        }
    }
}

/// Context menu overlay. The rect includes the border; items have a padding
/// column on each side inside of it.
#[derive(Debug)]
pub struct ContextMenu {
    pub items: Vec<MenuAction>,
    pub selected: usize,
    pub right_press: (u16, u16),
    pub right_drag_moved: bool,
    /// Where the menu is drawn.
    pub rect: Rect,
}

/// The mathematical value of a [`ContextMenu`].
#[verifier::ext_equal]
pub struct ContextMenuV {
    pub items: Seq<MenuAction>,
    pub selected: int,
    pub right_press: (u16, u16),
    pub right_drag_moved: bool,
    pub rect: Rect,
}

impl View for ContextMenu {
    type V = ContextMenuV;

    open spec fn view(&self) -> ContextMenuV {
        ContextMenuV {
            items: self.items@,
            selected: self.selected as int,
            right_press: self.right_press,
            right_drag_moved: self.right_drag_moved,
            rect: self.rect,
        }
    }
}

/// `n` without `k`, but not below zero.
pub open spec fn minus(n: int, k: int) -> int {
    if n < k {
        0
    } else {
        n - k
    }
}

impl ContextMenuV {
    /// The item row at a screen cell. Border cells never activate an item.
    pub open spec fn item_at(self, x: u16, y: u16) -> Option<int> {
        let right = self.rect.x + minus(self.rect.width as int, 1);
        let bottom = self.rect.y + minus(self.rect.height as int, 1);
        let row = y - self.rect.y - 1;
        if self.rect.x < x < right && self.rect.y < y < bottom && row < self.items.len() {
            Some(row)
        } else {
            None
        }
    }

    /// A fresh menu for a press at a screen cell.
    pub open spec fn fresh(x: u16, y: u16, items: Seq<MenuAction>) -> ContextMenuV {
        ContextMenuV {
            items,
            selected: 0,
            right_press: (x, y),
            right_drag_moved: false,
            rect: Rect {
                x: minus(x as int, 1) as u16,
                y: minus(y as int, 1) as u16,
                width: (widest(items) + 6) as u16,
                height: (items.len() + 2) as u16,
            },
        }
    }
}

impl ContextMenu {
    /// A menu for a press at a screen cell.
    pub fn at(x: u16, y: u16, items: Vec<MenuAction>) -> (menu: ContextMenu)
        requires
            items@.len() + 2 <= u16::MAX,
        ensures
            menu@ == ContextMenuV::fresh(x, y, items@),
    {
        let mut label_w: u16 = 0;
        let mut i: usize = 0;
        assert(items@.subrange(0, 0) =~= Seq::<MenuAction>::empty());
        while i < items.len()
            invariant
                i <= items.len(),
                label_w == widest(items@.subrange(0, i as int)),
                label_w <= 17,
            decreases items.len() - i,
        {
            assert(items@.subrange(0, i + 1).drop_last() =~= items@.subrange(0, i as int));
            proof {
                law_label_width(items@[i as int]);
            }
            let w: u16 = items[i].label().unicode_len() as u16;
            if w > label_w {
                label_w = w;
            }
            i = i + 1;
        }
        assert(items@.subrange(0, items@.len() as int) =~= items@);
        let width: u16 = label_w + 6;
        let height: u16 = items.len() as u16 + 2;
        ContextMenu {
            items,
            selected: 0,
            right_press: (x, y),
            right_drag_moved: false,
            rect: Rect { x: x.saturating_sub(1), y: y.saturating_sub(1), width, height },
        }
    }

    /// The item row at a screen cell. Border cells never activate an item.
    pub fn item_at(&self, x: u16, y: u16) -> (row: Option<usize>)
        ensures
            match row {
                Some(row) => self@.item_at(x, y) == Some(row as int),
                None => self@.item_at(x, y) is None,
            },
    {
        let right: u32 = self.rect.x as u32 + self.rect.width.saturating_sub(1) as u32;
        let bottom: u32 = self.rect.y as u32 + self.rect.height.saturating_sub(1) as u32;
        if x <= self.rect.x || y <= self.rect.y || x as u32 >= right || y as u32 >= bottom {
            return None;
        }
        let row: usize = (y - self.rect.y - 1) as usize;
        if row < self.items.len() {
            Some(row)
        } else {
            None
        }
    }
}

/// What a committed prompt applies to.
#[derive(Debug, Clone, Copy)]
pub enum PromptTarget {
    Workspace(WorkspaceId),
    Screen(ScreenId),
    Surface(SurfaceId),
    BrowserTab { pane: Option<PaneId> },
}

/// Centered prompt dialog. The renderer writes the geometry back, and the
/// line editor its text, so that clicks and commits match what is shown.
#[derive(Debug)]
pub struct Prompt {
    pub label: &'static str,
    pub input: String,
    pub target: PromptTarget,
    pub rect: Rect,
    pub input_rect: Rect,
    pub clear: Rect,
    pub ok: Rect,
    pub cancel: Rect,
}

impl Prompt {
    /// A prompt that is not on the screen yet.
    pub fn new(label: &'static str, input: String, target: PromptTarget) -> (prompt: Prompt)
        ensures
            prompt == fresh_prompt(label, input, target),
    {
        let none = Rect { x: 0, y: 0, width: 0, height: 0 };
        Prompt {
            label,
            input,
            target,
            rect: none,
            input_rect: none,
            clear: none,
            ok: none,
            cancel: none,
        }
    }
}

pub open spec fn fresh_prompt(label: &'static str, input: String, target: PromptTarget) -> Prompt {
    let none = Rect { x: 0, y: 0, width: 0, height: 0 };
    Prompt {
        label,
        input,
        target,
        rect: none,
        input_rect: none,
        clear: none,
        ok: none,
        cancel: none,
    }
}

/// A message that goes away by itself.
#[derive(Debug)]
pub struct Toast {
    pub text: String,
    /// When it goes, in milliseconds on the caller's clock.
    pub deadline: u64,
}

/// A text selection in one surface. Rows are absolute scrollback rows, so it
/// stays in place while the viewport scrolls.
#[derive(Debug, Clone, Copy)]
pub struct Selection {
    pub surface: SurfaceId,
    pub anchor: (u16, u64),
    pub head: (u16, u64),
}

/// `a` comes before `b`, or is `b`, in row-major order.
pub open spec fn reads_before(a: (u16, u64), b: (u16, u64)) -> bool {
    a.1 < b.1 || a.1 == b.1 && a.0 <= b.0
}

impl Selection {
    /// The first and the last selected cell.
    pub open spec fn ends(self) -> ((u16, u64), (u16, u64)) {
        if reads_before(self.anchor, self.head) {
            (self.anchor, self.head)
        } else {
            (self.head, self.anchor)
        }
    }

    /// The cell is selected.
    pub open spec fn covers(self, cell: (u16, u64)) -> bool {
        reads_before(self.ends().0, cell) && reads_before(cell, self.ends().1)
    }

    /// The cell in column `x` and row `y` of the viewport is selected while
    /// the viewport begins in row `offset`.
    pub open spec fn covers_viewport(self, x: u16, y: u16, offset: u64) -> bool {
        self.covers((x, (offset + y) as u64))
    }

    /// The first and the last selected cell, in row-major order.
    pub fn range(&self) -> (ends: ((u16, u64), (u16, u64)))
        ensures
            ends == self.ends(),
    {
        if self.anchor.1 < self.head.1 || (self.anchor.1 == self.head.1 && self.anchor.0
            <= self.head.0) {
            (self.anchor, self.head)
        } else {
            (self.head, self.anchor)
        }
    }

    /// Whether a viewport cell is selected at a scrollbar offset.
    pub fn contains_viewport(&self, x: u16, y: u16, offset: u64) -> (inside: bool)
        requires
            offset + y <= u64::MAX,
        ensures
            inside == self.covers_viewport(x, y, offset),
    {
        let y: u64 = offset + y as u64;
        let ((sx, sy), (ex, ey)) = self.range();
        if y < sy || y > ey {
            return false;
        }
        if sy == ey {
            return x >= sx && x <= ex;
        }
        if y == sy {
            return x >= sx;
        }
        if y == ey {
            return x <= ex;
        }
        true
    }
}

/// A selection runs forward and covers both its ends; it does not matter
/// which of them was pressed first. Scrolling does not move it: a cell that
/// is in row `y` at one offset and in row `later` at another is selected in
/// both places or in neither.
pub proof fn law_selection(
    selection: Selection,
    x: u16,
    y: u16,
    offset: u64,
    later: u16,
    later_offset: u64,
)
    ensures
        offset + y == later_offset + later ==> selection.covers_viewport(x, y, offset)
            == selection.covers_viewport(x, later, later_offset),
        reads_before(selection.ends().0, selection.ends().1),
        selection.covers(selection.anchor),
        selection.covers(selection.head),
        (Selection { anchor: selection.head, head: selection.anchor, ..selection }).ends()
            == selection.ends(),
{
}

#[derive(Debug, Clone, Copy)]
pub struct TabDragView {
    pub surface: SurfaceId,
    pub target: Option<(PaneId, usize)>,
}

/// Mouse drag in progress.
#[allow(inconsistent_fields)]
#[derive(Debug, Clone, Copy)]
pub enum Drag {
    /// Left press on a tab chip; becomes `Tab` after moving cells.
    TabArm { surface: SurfaceId, at: (u16, u16) },
    /// Tab drag with the current drop target.
    Tab { surface: SurfaceId, target: Option<(PaneId, usize)> },
    /// Left press on a workspace entry; becomes `Workspace` after moving
    /// cells.
    WorkspaceArm { workspace: WorkspaceId, at: (u16, u16) },
    /// Workspace drag with the current insertion index.
    Workspace { workspace: WorkspaceId, target: Option<usize> },
    /// Text selection inside a pane's content rect.
    Select { content: Rect, auto_scroll: Option<i8>, col: u16 },
    /// Browser mouse drag inside a pane's content rect.
    Browser { surface: SurfaceId, content: Rect },
    /// Scrollbar thumb drag.
    Scrollbar { surface: SurfaceId, track: Rect, anchor_y: u16, anchor_offset: u64 },
    /// Sidebar width override drag.
    SidebarResize,
    /// Pane split resize drag.
    ResizeSplit { horizontal: Option<(PaneId, PaneEdge)>, vertical: Option<(PaneId, PaneEdge)> },
}

/// Where the scrollbar is drawn.
#[derive(Debug, Clone, Copy, PartialEq, Eq, Structural)]
pub enum ScrollbarPosition {
    /// In a column just inside the right border.
    Column,
    /// On the right border.
    Border,
}

/// The settings that the frontend's geometry depends on.
#[derive(Debug, Clone, Copy, PartialEq, Eq, Structural)]
pub struct UiConfig {
    pub sidebar_width: u16,
    /// Zero for unlimited.
    pub sidebar_max_width: u16,
    pub scrollbar: ScrollbarPosition,
}

/// The largest sidebar that leaves the panes 40 columns.
pub open spec fn sidebar_limit(config: UiConfig, terminal_width: u16) -> int {
    let room = minus(terminal_width as int, 40);
    if config.sidebar_max_width > 0 && config.sidebar_max_width < room {
        config.sidebar_max_width as int
    } else {
        room
    }
}

/// The sidebar width closest to `desired`: at least 10 columns, or none on
/// terminals too narrow for that.
pub open spec fn sidebar_fit(config: UiConfig, terminal_width: u16, desired: u16) -> Option<u16> {
    let limit = sidebar_limit(config, terminal_width);
    if limit < 10 {
        None
    } else if desired < 10 {
        Some(10)
    } else if desired > limit {
        Some(limit as u16)
    } else {
        Some(desired)
    }
}

pub fn clamp_sidebar_width(config: &UiConfig, terminal_width: u16, desired: u16) -> (width: Option<
    u16,
>)
    ensures
        width == sidebar_fit(*config, terminal_width, desired),
{
    let terminal_max: u16 = terminal_width.saturating_sub(40);
    let limit: u16 = if config.sidebar_max_width > 0 && config.sidebar_max_width < terminal_max {
        config.sidebar_max_width
    } else {
        terminal_max
    };
    if limit < 10 {
        None
    } else if desired < 10 {
        Some(10)
    } else if desired > limit {
        Some(limit)
    } else {
        Some(desired)
    }
}

/// The sidebar's width on a terminal; zero when it is hidden.
pub open spec fn sidebar_columns(
    config: UiConfig,
    visible: bool,
    width: u16,
    override_width: Option<u16>,
) -> u16 {
    let desired = match override_width {
        Some(width) => width,
        None => config.sidebar_width,
    };
    match sidebar_fit(config, width, desired) {
        Some(columns) if visible => columns,
        _ => 0,
    }
}

/// The columns that the sidebar takes of a terminal.
pub fn sidebar_width_for(
    config: &UiConfig,
    visible: bool,
    width: u16,
    override_width: Option<u16>,
) -> (columns: u16)
    ensures
        columns == sidebar_columns(*config, visible, width, override_width),
        visible && columns > 0 ==> columns + 40 <= width,
{
    if !visible {
        return 0;
    }
    let desired: u16 = match override_width {
        Some(width) => width,
        None => config.sidebar_width,
    };
    match clamp_sidebar_width(config, width, desired) {
        Some(columns) => columns,
        None => 0,
    }
}

/// The sum, but no more than fits.
pub open spec fn plus(a: u16, b: u16) -> u16 {
    if a + b > u16::MAX {
        u16::MAX
    } else {
        (a + b) as u16
    }
}

/// The sidebar width for its border dragged to column `x`.
pub fn sidebar_drag_width(config: &UiConfig, content: Rect, sidebar_width: u16, x: u16) -> (width:
    Option<u16>)
    ensures
        width == sidebar_fit(*config, plus(content.width, sidebar_width), plus(x, 1)),
{
    clamp_sidebar_width(config, content.width.saturating_add(sidebar_width), x.saturating_add(1))
}

/// The terminal size of a pane that fills `rect`: its box takes a cell on
/// every side, and the scrollbar may take a column.
pub open spec fn content_size(rect: Rect, scrollbar: ScrollbarPosition) -> Option<(u16, u16)> {
    if rect.width > 2 && rect.height > 2 {
        let width = match scrollbar {
            ScrollbarPosition::Column => if rect.width == 3 {
                1
            } else {
                rect.width - 3
            },
            ScrollbarPosition::Border => rect.width - 2,
        };
        Some((width as u16, (rect.height - 2) as u16))
    } else if rect.width > 0 && rect.height > 0 {
        Some((rect.width, rect.height))
    } else {
        None
    }
}

pub fn content_size_for_rect(rect: Rect, scrollbar: ScrollbarPosition) -> (size: Option<(u16, u16)>)
    ensures
        size == content_size(rect, scrollbar),
{
    if rect.width > 2 && rect.height > 2 {
        let reserved: u16 = match scrollbar {
            ScrollbarPosition::Column => 3,
            ScrollbarPosition::Border => 2,
        };
        let width: u16 = rect.width.saturating_sub(reserved);
        Some((if width == 0 { 1 } else { width }, rect.height - 2))
    } else if rect.width > 0 && rect.height > 0 {
        Some((rect.width, rect.height))
    } else {
        None
    }
}

/// How many times as high as wide a cell is, to the nearest whole number and
/// at least one; four where that is unknown.
pub open spec fn cell_ratio(cell_pixels: (u16, u16)) -> int {
    let (width, height) = cell_pixels;
    if width == 0 || height == 0 {
        4
    } else {
        let nearest = (2 * height + width) / (2 * width as int);
        if nearest < 1 {
            1
        } else {
            nearest
        }
    }
}

pub fn cell_height_width_ratio(cell_pixels: (u16, u16)) -> (ratio: u16)
    ensures
        ratio == cell_ratio(cell_pixels),
{
    let (width, height) = cell_pixels;
    if width == 0 || height == 0 {
        return 4;
    }
    let w: u32 = width as u32;
    let h: u32 = height as u32;
    let nearest: u32 = (2 * h + w) / (2 * w);
    assert(nearest <= 65536) by (nonlinear_arith)
        requires
            nearest == (2 * h + w) / (2 * w) as int,
            1 <= w <= 65535,
            h <= 65535,
    ;
    assert(nearest <= 65535) by (nonlinear_arith)
        requires
            nearest == (2 * h + w) / (2 * w) as int,
            1 <= w <= 65535,
            h <= 65535,
    ;
    if nearest < 1 {
        1
    } else {
        nearest as u16
    }
}

/// The direction that a smart split takes: down where the pane is high for
/// its width, right where it is wide enough, else none.
pub open spec fn smart_direction(content: Rect, ratio: int) -> Option<SplitDir> {
    if content.height * ratio > content.width && content.height > 20 {
        Some(SplitDir::Down)
    } else if content.width > 60 {
        Some(SplitDir::Right)
    } else {
        None
    }
}

pub fn zellij_smart_direction(content: Rect, ratio: u16) -> (dir: Option<SplitDir>)
    ensures
        dir == smart_direction(content, ratio as int),
{
    let rows: u32 = content.height as u32;
    let cols: u32 = content.width as u32;
    let ratio: u32 = ratio as u32;
    assert(rows * ratio <= 0xffff * 0xffff) by (nonlinear_arith)
        requires
            rows <= 0xffff,
            ratio <= 0xffff,
    ;
    if rows * ratio > cols && rows > 20 {
        Some(SplitDir::Down)
    } else if cols > 60 {
        Some(SplitDir::Right)
    } else {
        None
    }
}

/// `areas[i]` can be split and is the largest that can; of several, it is
/// the last.
pub open spec fn is_largest_split(areas: Seq<PaneArea>, ratio: int, i: int) -> bool {
    &&& 0 <= i < areas.len()
    &&& smart_direction(areas[i].content, ratio) is Some
    &&& forall|j: int|
        #![trigger areas[j]]
        0 <= j < areas.len() && smart_direction(areas[j].content, ratio) is Some ==> if j > i {
            areas[j].content.size() < areas[i].content.size()
        } else {
            areas[j].content.size() <= areas[i].content.size()
        }
}

/// The pane to split and how: the focused one if it can be, else the largest
/// that can.
pub open spec fn smart_target(
    areas: Seq<PaneArea>,
    focused: Option<PaneId>,
    cell_pixels: (u16, u16),
) -> Option<(PaneId, SplitDir)> {
    let ratio = cell_ratio(cell_pixels);
    let own = match focused {
        Some(pane) => search::first_where(areas, |area: PaneArea| area.pane == pane),
        None => None,
    };
    if own is Some && smart_direction(areas[own->0].content, ratio) is Some {
        Some((areas[own->0].pane, smart_direction(areas[own->0].content, ratio)->0))
    } else if exists|i: int| is_largest_split(areas, ratio, i) {
        let i = choose|i: int| is_largest_split(areas, ratio, i);
        Some((areas[i].pane, smart_direction(areas[i].content, ratio)->0))
    } else {
        None
    }
}

/// The place of a pane's area.
pub fn find_area(areas: &[PaneArea], pane: PaneId) -> (place: Option<usize>)
    ensures
        match place {
            Some(i) => i < areas@.len() && search::first_where(
                areas@,
                |area: PaneArea| area.pane == pane,
            ) == Some(i as int),
            None => search::first_where(areas@, |area: PaneArea| area.pane == pane) is None,
        },
{
    let ghost p = |area: PaneArea| area.pane == pane;
    let mut i: usize = 0;
    while i < areas.len()
        invariant
            i <= areas.len(),
            p == (|area: PaneArea| area.pane == pane),
            forall|j: int| 0 <= j < i ==> !p(#[trigger] areas@[j]),
        decreases areas.len() - i,
    {
        if areas[i].pane == pane {
            proof {
                search::lemma_first_at(areas@, p, i as int);
            }
            return Some(i);
        }
        i = i + 1;
    }
    proof {
        search::lemma_first_none(areas@, p);
    }
    None
}

pub fn smart_split_target(
    areas: &[PaneArea],
    focused: Option<PaneId>,
    cell_pixels: (u16, u16),
) -> (target: Option<(PaneId, SplitDir)>)
    ensures
        target == smart_target(areas@, focused, cell_pixels),
{
    let ratio: u16 = cell_height_width_ratio(cell_pixels);
    if let Some(pane) = focused {
        if let Some(i) = find_area(areas, pane) {
            if let Some(dir) = zellij_smart_direction(areas[i].content, ratio) {
                return Some((areas[i].pane, dir));
            }
        }
    }
    let mut best: Option<(usize, SplitDir)> = None;
    let mut i: usize = 0;
    while i < areas.len()
        invariant
            i <= areas.len(),
            match best {
                Some((b, dir)) => b < i && is_largest_split(
                    areas@.subrange(0, i as int),
                    ratio as int,
                    b as int,
                ) && smart_direction(areas@[b as int].content, ratio as int) == Some(dir),
                None => forall|j: int|
                    #![trigger areas@[j]]
                    0 <= j < i ==> smart_direction(areas@[j].content, ratio as int) is None,
            },
        decreases areas.len() - i,
    {
        let ghost seen = areas@.subrange(0, i as int);
        let ghost next = areas@.subrange(0, i + 1);
        assert forall|j: int| 0 <= j < i implies #[trigger] next[j] == seen[j] by {}
        match zellij_smart_direction(areas[i].content, ratio) {
            Some(dir) => {
                let better = match best {
                    Some((b, _)) => areas[b].content.cells() <= areas[i].content.cells(),
                    None => true,
                };
                if better {
                    best = Some((i, dir));
                    assert(is_largest_split(next, ratio as int, i as int));
                } else if let Some((b, _)) = best {
                    assert(is_largest_split(next, ratio as int, b as int));
                }
            },
            None => {
                if let Some((b, _)) = best {
                    assert(is_largest_split(next, ratio as int, b as int));
                }
            },
        }
        i = i + 1;
    }
    assert(areas@.subrange(0, areas@.len() as int) =~= areas@);
    match best {
        Some((b, dir)) => {
            proof {
                let k = choose|k: int| is_largest_split(areas@, ratio as int, k);
                assert(is_largest_split(areas@, ratio as int, k));
                assert(areas@[k] == areas@[b as int] || k != b);
            }
            Some((areas[b].pane, dir))
        },
        None => None,
    }
}

/// The rects overlap; far edges stop at the last coordinate.
pub open spec fn overlap(a: Rect, b: Rect) -> bool {
    &&& a.x < plus(b.x, b.width)
    &&& b.x < plus(a.x, a.width)
    &&& a.y < plus(b.y, b.height)
    &&& b.y < plus(a.y, a.height)
}

pub fn rects_intersect(a: Rect, b: Rect) -> (meet: bool)
    ensures
        meet == overlap(a, b),
{
    let ax2: u16 = a.x.saturating_add(a.width);
    let ay2: u16 = a.y.saturating_add(a.height);
    let bx2: u16 = b.x.saturating_add(b.width);
    let by2: u16 = b.y.saturating_add(b.height);
    a.x < bx2 && ax2 > b.x && a.y < by2 && ay2 > b.y
}

/// A width that leaves the panes their columns and keeps to the settings.
pub open spec fn sidebar_allowed(config: UiConfig, terminal_width: u16, width: int) -> bool {
    &&& width >= 10
    &&& width + 40 <= terminal_width
    &&& config.sidebar_max_width > 0 ==> width <= config.sidebar_max_width
}

pub open spec fn apart(a: int, b: int) -> int {
    if a < b {
        b - a
    } else {
        a - b
    }
}

/// The sidebar takes the allowed width that is nearest to the one that is
/// wanted, and there is none only where no width is allowed. What is wanted
/// is the width that was dragged to, or else the configured one; a hidden
/// sidebar takes no columns.
pub proof fn law_sidebar(
    config: UiConfig,
    terminal_width: u16,
    desired: u16,
    other: int,
    dragged: Option<u16>,
)
    ensures
        match sidebar_fit(config, terminal_width, desired) {
            Some(width) => {
                &&& sidebar_allowed(config, terminal_width, width as int)
                &&& sidebar_allowed(config, terminal_width, other) ==> apart(
                    width as int,
                    desired as int,
                ) <= apart(other, desired as int)
            },
            None => !sidebar_allowed(config, terminal_width, other),
        },
        sidebar_columns(config, false, terminal_width, dragged) == 0,
        ({
            let wanted = if dragged is Some {
                dragged->0
            } else {
                config.sidebar_width
            };
            match sidebar_fit(config, terminal_width, wanted) {
                Some(width) => sidebar_columns(config, true, terminal_width, dragged) == width,
                None => sidebar_columns(config, true, terminal_width, dragged) == 0,
            }
        }),
{
}

/// A box takes a cell on every side of its content, and a scrollbar column
/// one more; a rect without room for a box is all content.
pub proof fn law_content_size(rect: Rect)
    ensures
        rect.width > 3 && rect.height > 2 ==> {
            &&& content_size(rect, ScrollbarPosition::Column) matches Some((cols, rows)) && cols + 3
                == rect.width && rows + 2 == rect.height
            &&& content_size(rect, ScrollbarPosition::Border) matches Some((cols, rows)) && cols + 2
                == rect.width && rows + 2 == rect.height
        },
        0 < rect.width <= 2 && rect.height > 0 || rect.width > 0 && 0 < rect.height <= 2
            ==> content_size(rect, ScrollbarPosition::Column) == Some((rect.width, rect.height))
            && content_size(rect, ScrollbarPosition::Border) == Some((rect.width, rect.height)),
        rect.width == 0 || rect.height == 0 ==> content_size(rect, ScrollbarPosition::Column)
            is None && content_size(rect, ScrollbarPosition::Border) is None,
        content_size(rect, ScrollbarPosition::Column) matches Some((cols, rows)) ==> cols > 0
            && rows > 0,
{
}

/// No whole number of widths comes nearer to the height of a cell than the
/// ratio, unless that is none.
pub proof fn law_cell_ratio(width: u16, height: u16, other: int)
    requires
        width > 0,
        height > 0,
        other >= 1,
    ensures
        ({
            let ratio = cell_ratio((width, height));
            &&& ratio >= 1
            &&& apart(ratio * width, height as int) <= apart(other * width, height as int)
        }),
{
    let n = 2 * height + width;
    let d = 2 * width as int;
    let nearest = n / d;
    let ratio = cell_ratio((width, height));
    vstd::arithmetic::div_mod::lemma_fundamental_div_mod(n, d);
    vstd::arithmetic::div_mod::lemma_mod_bound(n, d);
    assert(n / d >= 0) by (nonlinear_arith)
        requires
            n >= 0,
            d > 0,
    ;
    assert(2 * (nearest * width) <= n < 2 * (nearest * width) + d) by (nonlinear_arith)
        requires
            n == d * nearest + n % d,
            0 <= n % d < d,
            d == 2 * width,
    ;
    if other > ratio {
        assert(other * width >= ratio * width + width) by (nonlinear_arith)
            requires
                other >= ratio + 1,
                width > 0,
        ;
    } else if other < ratio {
        assert(other * width <= ratio * width - width) by (nonlinear_arith)
            requires
                other <= ratio - 1,
                width > 0,
        ;
    }
    if nearest < 1 {
        assert(ratio == 1);
        assert(nearest * width == 0) by (nonlinear_arith)
            requires
                nearest == 0,
        ;
        assert(ratio * width == width) by (nonlinear_arith)
            requires
                ratio == 1,
        ;
    }
}

/// A smart split goes down in a pane of more than twenty rows that is higher
/// than wide, to the right in another one of more than sixty columns, and
/// nowhere in any other.
pub proof fn law_smart_direction(content: Rect, ratio: int)
    ensures
        content.height > 20 && content.height * ratio > content.width ==> smart_direction(
            content,
            ratio,
        ) == Some(SplitDir::Down),
        !(content.height > 20 && content.height * ratio > content.width) && content.width > 60
            ==> smart_direction(content, ratio) == Some(SplitDir::Right),
        !(content.height > 20 && content.height * ratio > content.width) && content.width <= 60
            ==> smart_direction(content, ratio) is None,
{
}

/// A smart split takes the focused pane when that can be split. Else it takes
/// one that can be, and none that can be is larger.
pub proof fn law_smart_target(
    areas: Seq<PaneArea>,
    focused: Option<PaneId>,
    cell_pixels: (u16, u16),
    j: int,
)
    requires
        0 <= j < areas.len(),
    ensures
        ({
            let ratio = cell_ratio(cell_pixels);
            let can = |area: PaneArea| smart_direction(area.content, ratio) is Some;
            let own = focused == Some(areas[j].pane) && forall|i: int|
                0 <= i < j ==> (#[trigger] areas[i]).pane != areas[j].pane;
            match smart_target(areas, focused, cell_pixels) {
                Some((pane, dir)) => {
                    &&& own && can(areas[j]) ==> pane == areas[j].pane && smart_direction(
                        areas[j].content,
                        ratio,
                    ) == Some(dir)
                    &&& exists|i: int|
                        {
                            &&& 0 <= i < areas.len()
                            &&& (#[trigger] areas[i]).pane == pane
                            &&& smart_direction(areas[i].content, ratio) == Some(dir)
                            &&& focused == Some(pane) || (can(areas[j]) ==> areas[j].content.size()
                                <= areas[i].content.size())
                        }
                },
                None => !can(areas[j]),
            }
        }),
{
    let ratio = cell_ratio(cell_pixels);
    if let Some(pane) = focused {
        let p = |area: PaneArea| area.pane == pane;
        search::lemma_first_where(areas, p);
        if pane == areas[j].pane && forall|i: int|
            0 <= i < j ==> (#[trigger] areas[i]).pane != areas[j].pane {
            search::lemma_first_at(areas, p, j);
        }
    }
    if smart_direction(areas[j].content, ratio) is Some {
        let i = lemma_some_largest(areas, ratio, j);
        assert(is_largest_split(areas, ratio, i));
    }
    if exists|i: int| is_largest_split(areas, ratio, i) {
        let i = choose|i: int| is_largest_split(areas, ratio, i);
        assert(is_largest_split(areas, ratio, i));
        assert(areas[i].pane == areas[i].pane);
    }
}

/// Where one can be split, there is a largest of those.
proof fn lemma_some_largest(areas: Seq<PaneArea>, ratio: int, j: int) -> (i: int)
    requires
        0 <= j < areas.len(),
        smart_direction(areas[j].content, ratio) is Some,
    ensures
        is_largest_split(areas, ratio, i),
    decreases areas.len(),
{
    let last = areas.len() - 1;
    let before = areas.drop_last();
    if exists|k: int|
        0 <= k < last && smart_direction((#[trigger] areas[k]).content, ratio) is Some {
        let k = choose|k: int|
            0 <= k < last && smart_direction((#[trigger] areas[k]).content, ratio) is Some;
        assert(before[k] == areas[k]);
        let i = lemma_some_largest(before, ratio, k);
        assert(before[i] == areas[i]);
        assert forall|m: int| 0 <= m < last implies #[trigger] areas[m] == before[m] by {}
        if smart_direction(areas[last].content, ratio) is Some && areas[last].content.size()
            >= areas[i].content.size() {
            last
        } else {
            i
        }
    } else {
        assert(j == last);
        last
    }
}

/// Rects overlap exactly where they share a cell.
pub proof fn law_overlap(a: Rect, b: Rect)
    requires
        a.fits(),
        b.fits(),
    ensures
        overlap(a, b) && a.width > 0 && a.height > 0 && b.width > 0 && b.height > 0 <==> exists|
            x: int,
            y: int,
        | #[trigger] a.has(x, y) && b.has(x, y),
{
    let x = if a.x < b.x {
        b.x as int
    } else {
        a.x as int
    };
    let y = if a.y < b.y {
        b.y as int
    } else {
        a.y as int
    };
    if overlap(a, b) && a.width > 0 && a.height > 0 && b.width > 0 && b.height > 0 {
        assert(a.has(x, y) && b.has(x, y));
    }
}

/// The widest label is one of the labels, and none is wider.
proof fn lemma_widest(items: Seq<MenuAction>, i: int)
    requires
        0 <= i < items.len(),
    ensures
        items[i].text().len() <= widest(items),
        widest(items) <= 17,
        exists|j: int| 0 <= j < items.len() && widest(items) == (#[trigger] items[j]).text().len(),
    decreases items.len(),
{
    law_label_width(items.last());
    law_label_width(items[i]);
    let before = items.drop_last();
    if before.len() > 0 {
        if i < before.len() {
            lemma_widest(before, i);
        } else {
            lemma_widest(before, 0);
        }
        let j = choose|j: int|
            0 <= j < before.len() && widest(before) == (#[trigger] before[j]).text().len();
        assert(before[j] == items[j]);
        assert(before[j].text().len() <= 17) by {
            law_label_width(before[j]);
        }
    }
    assert(before.len() == 0 ==> widest(before) == 0);
    assert(items[items.len() - 1] == items.last());
}

/// A fresh menu lies over the cell that was pressed, has a row for each item
/// in their order, room for every label, and its first item selected. The
/// border takes no item.
pub proof fn law_menu(x: u16, y: u16, items: Seq<MenuAction>, i: int, px: u16, py: u16)
    requires
        0 <= i < items.len(),
        items.len() <= 100,
        x <= 0xff00,
        y <= 0xff00,
    ensures
        ({
            let menu = ContextMenuV::fresh(x, y, items);
            &&& menu.items == items
            &&& menu.selected == 0
            &&& menu.rect.has(x as int, y as int)
            &&& menu.rect.width >= items[i].text().len() + 6
            &&& exists|j: int|
                0 <= j < items.len() && menu.rect.width == (#[trigger] items[j]).text().len() + 6
            &&& menu.rect.height == items.len() + 2
            &&& menu.item_at(px, py) == Some(i) <==> py == menu.rect.y + 1 + i && menu.rect.x < px
                && px < menu.rect.x + menu.rect.width - 1
        }),
{
    lemma_widest(items, i);
}

/// A selection over several rows covers all of the rows between its ends, its
/// first row from its first cell on, and its last row up to its last cell; in
/// one row it covers what lies between.
pub proof fn law_selection_shape(selection: Selection, x: u16, y: u64)
    ensures
        ({
            let (start, end) = selection.ends();
            &&& {
                ||| start == selection.anchor && end == selection.head
                ||| start == selection.head && end == selection.anchor
            }
            &&& start.1 <= end.1
            &&& y < start.1 || y > end.1 ==> !selection.covers((x, y))
            &&& start.1 < y < end.1 ==> selection.covers((x, y))
            &&& start.1 < end.1 && y == start.1 ==> selection.covers((x, y)) == (x >= start.0)
            &&& start.1 < end.1 && y == end.1 ==> selection.covers((x, y)) == (x <= end.0)
            &&& start.1 == end.1 && y == start.1 ==> selection.covers((x, y)) == (start.0 <= x
                <= end.0)
        }),
{
}

/// A label says what its entry does.
pub proof fn law_labels(id: u64)
    ensures
        MenuAction::RenameWorkspace(id).text() == "Rename workspace"@,
        MenuAction::CopyWorkspaceId(id).text() == "Copy workspace id"@,
        MenuAction::CloseWorkspace(id).text() == "Close workspace"@,
        MenuAction::RenameScreen(id).text() == "Rename screen"@,
        MenuAction::CloseScreen(id).text() == "Close screen"@,
        MenuAction::RenameTab(id).text() == "Rename tab"@,
        MenuAction::CopyTabId(id).text() == "Copy tab id"@,
        MenuAction::CopyPaneId(id).text() == "Copy pane id"@,
        MenuAction::NewTab(id).text() == "New tab"@,
        MenuAction::NewBrowserTab(id).text() == "New browser tab"@,
        MenuAction::SplitRight(id).text() == "Split right"@,
        MenuAction::SplitDown(id).text() == "Split down"@,
        MenuAction::CloseTab(id).text() == "Close tab"@,
        MenuAction::ClosePane(id).text() == "Close pane"@,
{
}

} // verus!
