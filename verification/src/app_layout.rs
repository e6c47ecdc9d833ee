//! Where panes are drawn, and how their borders move.

use vstd::prelude::*;

use crate::app;
use crate::app::{App, AppV};
use crate::frontend::{UiEffect, UiEffectV};
use crate::geometry::Rect;
use crate::node::{PaneId, SurfaceId};
use crate::tree::{TabView, TreeView};
use crate::ui;
use crate::ui::{
    content_size_for_rect, rects_intersect, sidebar_width_for, PaneArea, ScrollbarPosition,
    UiConfig,
};

verus! {

/// What is left of a terminal beside the sidebar and above the status bar.
pub open spec fn pane_region(sidebar: u16, size: (u16, u16)) -> Rect {
    Rect {
        x: sidebar,
        y: 0,
        width: ui::minus(size.0 as int, sidebar as int) as u16,
        height: ui::minus(size.1 as int, 1) as u16,
    }
}

pub fn region_for(sidebar: u16, size: (u16, u16)) -> (region: Rect)
    ensures
        region == pane_region(sidebar, size),
{
    Rect {
        x: sidebar,
        y: 0,
        width: size.0.saturating_sub(sidebar),
        height: size.1.saturating_sub(1),
    }
}

/// The size of the first pane on a terminal, so that it need not be resized
/// right after it was spawned.
pub fn initial_size(config: &UiConfig, terminal: (u16, u16)) -> (size: (u16, u16))
    ensures
        size == match ui::content_size(
            pane_region(ui::sidebar_columns(*config, true, terminal.0, None), terminal),
            config.scrollbar,
        ) {
            Some(size) => size,
            None => (1, 1),
        },
{
    let sidebar: u16 = sidebar_width_for(config, true, terminal.0, None);
    match content_size_for_rect(region_for(sidebar, terminal), config.scrollbar) {
        Some(size) => size,
        None => (1, 1),
    }
}

/// How a pane fills its rect: a border box whose top row is the tab bar; the
/// scrollbar takes a column inside of it or lies on the right border. Too
/// small a rect has no box.
pub open spec fn area_in(
    pane: PaneId,
    surface: SurfaceId,
    rect: Rect,
    scrollbar: ScrollbarPosition,
) -> PaneArea {
    if rect.width < 3 || rect.height < 3 {
        PaneArea { pane, surface, rect, bar: None, content: rect, track: None }
    } else {
        let border = rect.x + rect.width - 1;
        let (width, track) = match scrollbar {
            ScrollbarPosition::Column => (rect.width - 3, border - 1),
            ScrollbarPosition::Border => (rect.width - 2, border),
        };
        let height = (rect.height - 2) as u16;
        let top = (rect.y + 1) as u16;
        PaneArea {
            pane,
            surface,
            rect,
            bar: Some(Rect { height: 1, ..rect }),
            content: Rect { x: (rect.x + 1) as u16, y: top, width: width as u16, height },
            track: Some(Rect { x: track as u16, y: top, width: 1, height }),
        }
    }
}

pub fn place_pane(
    pane: PaneId,
    surface: SurfaceId,
    rect: Rect,
    scrollbar: ScrollbarPosition,
) -> (area: PaneArea)
    requires
        rect.fits(),
    ensures
        area == area_in(pane, surface, rect, scrollbar),
        area.content.fits(),
{
    if rect.width < 3 || rect.height < 3 {
        return PaneArea { pane, surface, rect, bar: None, content: rect, track: None };
    }
    let border: u16 = rect.x + (rect.width - 1);
    let (width, track): (u16, u16) = match scrollbar {
        ScrollbarPosition::Column => (rect.width - 3, border - 1),
        ScrollbarPosition::Border => (rect.width - 2, border),
    };
    let height: u16 = rect.height - 2;
    let top: u16 = rect.y + 1;
    PaneArea {
        pane,
        surface,
        rect,
        bar: Some(Rect { x: rect.x, y: rect.y, width: rect.width, height: 1 }),
        content: Rect { x: rect.x + 1, y: top, width, height },
        track: Some(Rect { x: track, y: top, width: 1, height }),
    }
}

/// Gives every tab of a pane the size of its content, so that switching tabs
/// does not resize.
pub open spec fn tab_resizes(tabs: Seq<TabView>, content: Rect) -> Seq<UiEffectV> {
    if content.width == 0 || content.height == 0 {
        seq![]
    } else {
        tabs.map_values(
            |tab: TabView|
                UiEffectV::Resize {
                    surface: tab.surface,
                    cols: content.width,
                    rows: content.height,
                },
        )
    }
}

/// The areas of the active screen's panes that have a tab to show, in the
/// order of the layout, and what gives their tabs their sizes.
pub open spec fn placed(
    tree: TreeView,
    layout: Seq<(PaneId, Rect)>,
    scrollbar: ScrollbarPosition,
) -> (Seq<PaneArea>, Seq<UiEffectV>)
    decreases layout.len(),
{
    if layout.len() == 0 {
        (seq![], seq![])
    } else {
        let (areas, effects) = placed(tree, layout.drop_last(), scrollbar);
        let (pane, rect) = layout.last();
        match tree.shown_pane(pane) {
            Some(view) => match view.active() {
                Some(tab) => {
                    let area = area_in(pane, tab.surface, rect, scrollbar);
                    (areas.push(area), effects + tab_resizes(view.tabs@, area.content))
                },
                None => (areas, effects),
            },
            None => (areas, effects),
        }
    }
}

/// A frame of a page that is drawn over a pane's content.
#[derive(Debug, Clone, Copy, PartialEq, Eq, Structural)]
pub struct GraphicPlacement {
    pub surface: SurfaceId,
    pub rect: Rect,
    /// The number of the frame.
    pub seq: u64,
}

impl AppV {
    /// The menu or the prompt covers a part of `rect`.
    pub open spec fn occluded(self, rect: Rect) -> bool {
        ||| self.menu matches Some(menu) && ui::overlap(rect, menu.rect)
        ||| self.prompt matches Some(prompt) && ui::overlap(rect, prompt.rect)
    }

    /// The frames to draw for the first `n` areas: those of the pages that
    /// nothing covers.
    pub open spec fn graphics(self, frames: Seq<Option<u64>>, n: int) -> Seq<GraphicPlacement>
        decreases n,
    {
        if n <= 0 {
            seq![]
        } else {
            let before = self.graphics(frames, n - 1);
            let area = self.pane_areas[n - 1];
            match frames[n - 1] {
                Some(seq) if !self.occluded(area.content) => before.push(
                    GraphicPlacement { surface: area.surface, rect: area.content, seq },
                ),
                _ => before,
            }
        }
    }

    /// The pane region on a terminal.
    pub open spec fn region(self, size: (u16, u16)) -> Rect {
        pane_region(self.sidebar_for(size), size)
    }

    pub open spec fn sidebar_for(self, size: (u16, u16)) -> u16 {
        ui::sidebar_columns(
            self.config,
            self.sidebar_visible,
            size.0,
            self.sidebar_width_override,
        )
    }

    /// The tree is drawn anew on a terminal of some size.
    #[verifier::opaque]
    pub open spec fn laid_out(
        self,
        size: (u16, u16),
        tree: TreeView,
        layout: Seq<(PaneId, Rect)>,
    ) -> AppV {
        let (areas, effects) = placed(tree, layout, self.config.scrollbar);
        AppV {
            sidebar_width: self.sidebar_for(size),
            content_area: self.region(size),
            tree,
            pane_areas: areas,
            outbox: self.outbox + effects,
            ..self
        }
    }

    /// A drag at the edge of the text scrolls a surface, up or down.
    pub open spec fn auto_scroll(self) -> Option<(SurfaceId, i8)> {
        match (self.drag, self.selection) {
            (
                Some(ui::Drag::Select { auto_scroll: Some(dir), .. }),
                Some(selection),
            ) => Some((selection.surface, dir)),
            _ => None,
        }
    }

    /// The selection follows a surface that was scrolled to an offset.
    pub open spec fn auto_scrolled(self, offset: u64) -> AppV {
        match (self.drag, self.selection) {
            (
                Some(ui::Drag::Select { content, auto_scroll: Some(dir), col }),
                Some(selection),
            ) => {
                let last = ui::minus(content.width as int, 1);
                let row = if dir < 0 {
                    0
                } else {
                    ui::minus(content.height as int, 1)
                };
                AppV {
                    selection: Some(
                        ui::Selection {
                            head: (
                                if col < last {
                                    col
                                } else {
                                    last as u16
                                },
                                (offset + row) as u64,
                            ),
                            ..selection
                        },
                    ),
                    ..self
                }
            },
            _ => self,
        }
    }
}

impl App {
    /// Whether the menu or the prompt covers a part of `rect`.
    pub fn browser_graphic_occluded(&self, rect: Rect) -> (covered: bool)
        ensures
            covered == self@.occluded(rect),
    {
        let by_menu = match &self.menu {
            Some(menu) => rects_intersect(rect, menu.rect),
            None => false,
        };
        let by_prompt = match &self.prompt {
            Some(prompt) => rects_intersect(rect, prompt.rect),
            None => false,
        };
        by_menu || by_prompt
    }

    /// The frames to draw. `frames` has the number of the latest frame for
    /// each pane area that shows a page.
    pub fn graphic_placements(&self, frames: &Vec<Option<u64>>) -> (placements: Vec<
        GraphicPlacement,
    >)
        requires
            frames@.len() == self@.pane_areas.len(),
        ensures
            placements@ == self@.graphics(frames@, frames@.len() as int),
    {
        let mut placements: Vec<GraphicPlacement> = Vec::new();
        let mut i: usize = 0;
        while i < frames.len()
            invariant
                i <= frames@.len(),
                frames@.len() == self@.pane_areas.len(),
                placements@ == self@.graphics(frames@, i as int),
            decreases frames.len() - i,
        {
            let area = &self.pane_areas[i];
            if let Some(seq) = frames[i] {
                if !self.browser_graphic_occluded(area.content) {
                    placements.push(
                        GraphicPlacement { surface: area.surface, rect: area.content, seq },
                    );
                }
            }
            i = i + 1;
        }
        placements
    }

    /// The pane region on a terminal.
    pub fn content_rect(&self, size: (u16, u16)) -> (region: Rect)
        ensures
            region == self@.region(size),
    {
        let sidebar: u16 = sidebar_width_for(
            &self.config,
            self.sidebar_visible,
            size.0,
            self.sidebar_width_override,
        );
        region_for(sidebar, size)
    }

    /// Draws a tree anew: `layout` says where the panes of its active screen
    /// are. Every tab is given the size of its pane's content.
    pub fn sync_layout(&mut self, size: (u16, u16), tree: TreeView, layout: &Vec<(PaneId, Rect)>)
        requires
            old(self).wf(),
            forall|i: int| #![trigger layout@[i]] 0 <= i < layout@.len() ==> layout@[i].1.fits(),
        ensures
            final(self).wf(),
            final(self)@ == old(self)@.laid_out(size, tree, layout@),
    {
        reveal(AppV::laid_out);
        let sidebar: u16 = sidebar_width_for(
            &self.config,
            self.sidebar_visible,
            size.0,
            self.sidebar_width_override,
        );
        self.sidebar_width = sidebar;
        self.content_area = region_for(sidebar, size);
        let scrollbar = self.config.scrollbar;
        let mut areas: Vec<PaneArea> = Vec::new();
        let mut effects: Vec<UiEffect> = Vec::new();
        let mut i: usize = 0;
        proof {
            assert(layout@.subrange(0, 0).len() == 0);
            assert(areas@ =~= placed(tree, layout@.subrange(0, 0), scrollbar).0);
            assert(app::effect_values(effects@) =~= placed(
                tree,
                layout@.subrange(0, 0),
                scrollbar,
            ).1);
        }
        while i < layout.len()
            invariant
                i <= layout@.len(),
                forall|j: int|
                    #![trigger layout@[j]]
                    0 <= j < layout@.len() ==> layout@[j].1.fits(),
                forall|j: int| #![trigger areas@[j]] 0 <= j < areas@.len() ==> areas@[j].content.fits(),
                areas@ == placed(tree, layout@.subrange(0, i as int), scrollbar).0,
                app::effect_values(effects@) == placed(
                    tree,
                    layout@.subrange(0, i as int),
                    scrollbar,
                ).1,
            decreases layout.len() - i,
        {
            let (pane, rect) = layout[i];
            assert(layout@.subrange(0, i + 1).drop_last() =~= layout@.subrange(0, i as int));
            if let Some(view) = tree.pane_shown(pane) {
                if let Some(tab) = view.active_tab() {
                    let area = place_pane(pane, tab.surface, rect, scrollbar);
                    areas.push(area);
                    push_resizes(&mut effects, &view.tabs, area.content);
                }
            }
            i = i + 1;
        }
        assert(layout@.subrange(0, layout@.len() as int) =~= layout@);
        self.tree = tree;
        self.pane_areas = areas;
        self.request_all(effects);
    }

    /// The text under a drag that is at its edge, and which way to scroll.
    pub fn selection_auto_scroll(&self) -> (scroll: Option<(SurfaceId, i8)>)
        ensures
            scroll == self@.auto_scroll(),
    {
        match (self.drag, self.selection) {
            (
                Some(ui::Drag::Select { auto_scroll: Some(dir), .. }),
                Some(selection),
            ) => Some((selection.surface, dir)),
            _ => None,
        }
    }

    /// Takes note of the offset to which the text under a drag was scrolled.
    pub fn auto_scroll_selection_tick(&mut self, offset: u64)
        requires
            old(self).wf(),
            offset <= u64::MAX - u16::MAX,
        ensures
            final(self).wf(),
            final(self)@ == old(self)@.auto_scrolled(offset),
    {
        if let Some(ui::Drag::Select { content, auto_scroll: Some(dir), col }) = self.drag {
            if let Some(selection) = self.selection {
                let last: u16 = content.width.saturating_sub(1);
                let row: u16 = if dir < 0 {
                    0
                } else {
                    content.height.saturating_sub(1)
                };
                let column: u16 = if col < last {
                    col
                } else {
                    last
                };
                self.selection = Some(
                    ui::Selection { head: (column, offset + row as u64), ..selection },
                );
            }
        }
    }

    /// How long to wait for an event, in milliseconds: not long while
    /// something moves by itself.
    pub fn poll_millis(&self) -> (millis: u64)
        ensures
            millis == if self@.shake_frames > 0 || self@.toast is Some || (
            self@.drag matches Some(ui::Drag::Select { auto_scroll: Some(_), .. })) {
                30u64
            } else {
                250u64
            },
    {
        let scrolls = match self.drag {
            Some(ui::Drag::Select { auto_scroll: Some(_), .. }) => true,
            _ => false,
        };
        if self.shake_frames > 0 || self.toast.is_some() || scrolls {
            30
        } else {
            250
        }
    }

    /// Takes note of the size of a cell. Says whether it is another one.
    pub fn refresh_cell_pixels(&mut self, next: (u16, u16)) -> (changed: bool)
        ensures
            changed == (old(self)@.cell_pixels != next),
            final(self)@ == (AppV { cell_pixels: next, ..old(self)@ }),
    {
        let changed = self.cell_pixels.0 != next.0 || self.cell_pixels.1 != next.1;
        self.cell_pixels = next;
        changed
    }
}

fn push_resizes(effects: &mut Vec<UiEffect>, tabs: &Vec<TabView>, content: Rect)
    ensures
        app::effect_values(final(effects)@) == app::effect_values(old(effects)@) + tab_resizes(
            tabs@,
            content,
        ),
{
    let ghost before = effects@;
    if content.width == 0 || content.height == 0 {
        assert(app::effect_values(before) =~= app::effect_values(before) + tab_resizes(
            tabs@,
            content,
        ));
        return ;
    }
    let ghost whole = tab_resizes(tabs@, content);
    let mut i: usize = 0;
    assert(app::effect_values(before) =~= app::effect_values(before) + whole.subrange(0, 0));
    while i < tabs.len()
        invariant
            i <= tabs@.len(),
            content.width != 0 && content.height != 0,
            whole == tab_resizes(tabs@, content),
            whole.len() == tabs@.len(),
            app::effect_values(effects@) == app::effect_values(before) + whole.subrange(
                0,
                i as int,
            ),
        decreases tabs.len() - i,
    {
        let ghost so_far = effects@;
        effects.push(
            UiEffect::Resize {
                surface: tabs[i].surface,
                cols: content.width,
                rows: content.height,
            },
        );
        assert(app::effect_values(effects@) =~= app::effect_values(so_far).push(
            effects@.last()@,
        ));
        assert(whole.subrange(0, i + 1) =~= whole.subrange(0, i as int).push(whole[i as int]));
        assert(app::effect_values(effects@) =~= app::effect_values(before) + whole.subrange(
            0,
            i + 1,
        ));
        i = i + 1;
    }
    assert(whole.subrange(0, tabs@.len() as int) =~= whole);
}

/// The panes have what lies right of the sidebar and above the last row.
pub proof fn law_region(sidebar: u16, size: (u16, u16), x: int, y: int)
    requires
        sidebar <= size.0,
        size.1 > 0,
    ensures
        pane_region(sidebar, size).has(x, y) <==> sidebar <= x < size.0 && 0 <= y < size.1 - 1,
{
}

/// The parts of a pane's box: the tab bar is its top row, and the content
/// fills what is inside the border, but for the scrollbar's column where that
/// has one of its own. The track runs beside the content, or on the border.
pub proof fn law_area(
    pane: PaneId,
    surface: SurfaceId,
    rect: Rect,
    scrollbar: ScrollbarPosition,
    x: int,
    y: int,
)
    requires
        rect.fits(),
        rect.width >= 3,
        rect.height >= 3,
    ensures
        ({
            let area = area_in(pane, surface, rect, scrollbar);
            let left = rect.x;
            let right = rect.x + rect.width - 1;
            let top = rect.y;
            let bottom = rect.y + rect.height - 1;
            let kept: int = if scrollbar is Column {
                1
            } else {
                0
            };
            &&& area.pane == pane
            &&& area.surface == surface
            &&& area.rect == rect
            &&& area.bar is Some
            &&& area.bar->0.has(x, y) <==> left <= x <= right && y == top
            &&& area.content.has(x, y) <==> left < x < right - kept && top < y < bottom
            &&& area.track is Some
            &&& area.track->0.has(x, y) <==> x == right - kept && top < y < bottom
        }),
{
}

/// A rect with no room for a box is all content.
pub proof fn law_bare_area(
    pane: PaneId,
    surface: SurfaceId,
    rect: Rect,
    scrollbar: ScrollbarPosition,
)
    requires
        rect.width < 3 || rect.height < 3,
    ensures
        ({
            let area = area_in(pane, surface, rect, scrollbar);
            &&& area.pane == pane
            &&& area.surface == surface
            &&& area.content == rect
            &&& area.bar is None
            &&& area.track is None
        }),
{
}

/// The area shows a pane of the layout in its rect, with its active tab.
pub open spec fn shows(
    area: PaneArea,
    tree: TreeView,
    layout: Seq<(PaneId, Rect)>,
    scrollbar: ScrollbarPosition,
    k: int,
) -> bool {
    let pane = tree.shown_pane(layout[k].0);
    &&& 0 <= k < layout.len()
    &&& pane is Some
    &&& pane->0.active_tab < pane->0.tabs@.len()
    &&& area == area_in(
        layout[k].0,
        pane->0.tabs@[pane->0.active_tab as int].surface,
        layout[k].1,
        scrollbar,
    )
}

/// The area shows some pane of the layout.
pub open spec fn from_layout(
    area: PaneArea,
    tree: TreeView,
    layout: Seq<(PaneId, Rect)>,
    scrollbar: ScrollbarPosition,
) -> bool {
    exists|j: int| #[trigger] shows(area, tree, layout, scrollbar, j)
}

/// The work gives a surface its size.
pub open spec fn gives_size(effects: Seq<UiEffectV>, surface: SurfaceId, content: Rect) -> bool {
    effects.contains(
        UiEffectV::Resize { surface, cols: content.width, rows: content.height },
    )
}

/// What is drawn is the layout: every area shows a pane of it, every pane of
/// it with a tab to show has an area, and every tab of that pane gets the
/// size of the pane's content. Nothing else is asked for.
pub proof fn law_layout(
    tree: TreeView,
    layout: Seq<(PaneId, Rect)>,
    scrollbar: ScrollbarPosition,
    k: int,
    t: int,
)
    requires
        0 <= k < layout.len(),
    ensures
        ({
            let (areas, effects) = placed(tree, layout, scrollbar);
            let pane = tree.shown_pane(layout[k].0);
            &&& areas.len() <= layout.len()
            &&& forall|i: int|
                0 <= i < areas.len() ==> from_layout(#[trigger] areas[i], tree, layout, scrollbar)
            &&& forall|e: int| 0 <= e < effects.len() ==> (#[trigger] effects[e]) is Resize
            &&& pane is Some && pane->0.active_tab < pane->0.tabs@.len() ==> exists|i: int|
                {
                    &&& 0 <= i < areas.len()
                    &&& #[trigger] shows(areas[i], tree, layout, scrollbar, k)
                    &&& (0 <= t < pane->0.tabs@.len() && areas[i].content.width > 0
                        && areas[i].content.height > 0) ==> gives_size(
                        effects,
                        pane->0.tabs@[t].surface,
                        areas[i].content,
                    )
                }
        }),
    decreases layout.len(),
{
    let before = layout.drop_last();
    let (head, tail) = placed(tree, before, scrollbar);
    let (areas, effects) = placed(tree, layout, scrollbar);
    let last = layout.len() - 1;
    if before.len() > 0 {
        law_layout(
            tree,
            before,
            scrollbar,
            if k < last {
                k
            } else {
                0
            },
            t,
        );
    } else {
        assert(head.len() == 0 && tail.len() == 0);
    }
    let view = tree.shown_pane(layout[last].0);
    let grows = view is Some && view->0.active_tab < view->0.tabs@.len();
    assert forall|i: int| 0 <= i < areas.len() implies from_layout(
        #[trigger] areas[i],
        tree,
        layout,
        scrollbar,
    ) by {
        if i < head.len() {
            assert(areas[i] == head[i]);
            assert(from_layout(head[i], tree, before, scrollbar));
            let j = choose|j: int| #[trigger] shows(head[i], tree, before, scrollbar, j);
            assert(before[j] == layout[j]);
            assert(shows(areas[i], tree, layout, scrollbar, j));
        } else {
            assert(shows(areas[i], tree, layout, scrollbar, last));
        }
    }
    let pane = tree.shown_pane(layout[k].0);
    if pane is Some && pane->0.active_tab < pane->0.tabs@.len() {
        if k < last {
            assert(before[k] == layout[k]);
            let i = choose|i: int|
                {
                    &&& 0 <= i < head.len()
                    &&& #[trigger] shows(head[i], tree, before, scrollbar, k)
                    &&& (0 <= t < pane->0.tabs@.len() && head[i].content.width > 0
                        && head[i].content.height > 0) ==> gives_size(
                        tail,
                        pane->0.tabs@[t].surface,
                        head[i].content,
                    )
                };
            assert(areas[i] == head[i]);
            assert(shows(areas[i], tree, layout, scrollbar, k));
            if 0 <= t < pane->0.tabs@.len() && areas[i].content.width > 0
                && areas[i].content.height > 0 {
                let e = UiEffectV::Resize {
                    surface: pane->0.tabs@[t].surface,
                    cols: areas[i].content.width,
                    rows: areas[i].content.height,
                };
                let at = choose|at: int| 0 <= at < tail.len() && tail[at] == e;
                assert(effects[at] == e);
            }
        } else {
            let i = head.len() as int;
            assert(shows(areas[i], tree, layout, scrollbar, k));
            if 0 <= t < pane->0.tabs@.len() && areas[i].content.width > 0
                && areas[i].content.height > 0 {
                let e = UiEffectV::Resize {
                    surface: pane->0.tabs@[t].surface,
                    cols: areas[i].content.width,
                    rows: areas[i].content.height,
                };
                assert(effects[tail.len() + t] == e);
            }
        }
    }
}

/// A page's frame is drawn exactly where the page has one and neither the
/// menu nor the prompt covers any of its content.
pub proof fn law_graphics(app: AppV, frames: Seq<Option<u64>>, n: int, i: int)
    requires
        0 <= i < n <= app.pane_areas.len(),
        frames.len() == app.pane_areas.len(),
    ensures
        ({
            let area = app.pane_areas[i];
            let covered = (app.menu is Some && ui::overlap(area.content, app.menu->0.rect)) || (
            app.prompt is Some && ui::overlap(area.content, app.prompt->0.rect));
            let drawn = app.graphics(frames, n);
            &&& frames[i] is Some && !covered ==> drawn.contains(
                GraphicPlacement { surface: area.surface, rect: area.content, seq: frames[i]->0 },
            )
            &&& forall|k: int|
                0 <= k < drawn.len() ==> from_page(app, frames, #[trigger] drawn[k])
        }),
    decreases n,
{
    let before = app.graphics(frames, n - 1);
    let drawn = app.graphics(frames, n);
    if n > 1 {
        law_graphics(
            app,
            frames,
            n - 1,
            if i < n - 1 {
                i
            } else {
                0
            },
        );
    }
    assert forall|k: int| 0 <= k < drawn.len() implies from_page(
        app,
        frames,
        #[trigger] drawn[k],
    ) by {
        if k < before.len() {
            assert(drawn[k] == before[k]);
            assert(from_page(app, frames, before[k]));
        } else {
            assert(places(app, frames, n - 1, drawn[k]));
        }
    }
    let area = app.pane_areas[i];
    if frames[i] is Some && !app.occluded(area.content) {
        let it = GraphicPlacement {
            surface: area.surface,
            rect: area.content,
            seq: frames[i]->0,
        };
        if i < n - 1 {
            let k = choose|k: int| 0 <= k < before.len() && before[k] == it;
            assert(drawn[k] == it);
        } else {
            assert(drawn[before.len() as int] == it);
        }
    }
}

/// The frame is that of pane `j`, which nothing covers.
pub open spec fn places(
    app: AppV,
    frames: Seq<Option<u64>>,
    j: int,
    it: GraphicPlacement,
) -> bool {
    &&& 0 <= j < app.pane_areas.len()
    &&& frames[j] == Some(it.seq)
    &&& it.surface == app.pane_areas[j].surface
    &&& it.rect == app.pane_areas[j].content
    &&& !(app.menu is Some && ui::overlap(it.rect, app.menu->0.rect))
    &&& !(app.prompt is Some && ui::overlap(it.rect, app.prompt->0.rect))
}

/// The frame is that of some pane that nothing covers.
pub open spec fn from_page(app: AppV, frames: Seq<Option<u64>>, it: GraphicPlacement) -> bool {
    exists|j: int| #[trigger] places(app, frames, j, it)
}

/// A new frame shows the tree and the layout that it was given, on a terminal
/// of the size that it was given; what the user holds or has open stays.
pub proof fn law_laid_out(
    app: AppV,
    size: (u16, u16),
    tree: TreeView,
    layout: Seq<(PaneId, Rect)>,
)
    ensures
        ({
            let after = app.laid_out(size, tree, layout);
            &&& after.tree == tree
            &&& after.pane_areas == placed(tree, layout, app.config.scrollbar).0
            &&& after.content_area.x == after.sidebar_width
            &&& after.sidebar_width <= size.0 ==> after.content_area.width + after.sidebar_width
                == size.0
            &&& size.1 > 0 ==> after.content_area.height + 1 == size.1
            &&& !app.sidebar_visible ==> after.sidebar_width == 0
            &&& after.menu == app.menu
            &&& after.prompt == app.prompt
            &&& after.drag == app.drag
            &&& after.selection == app.selection
            &&& after.quit == app.quit
        }),
{
    reveal(AppV::laid_out);
}

/// While a drag at the edge of the text scrolls it, the selection grows to
/// the row that has come into view: the first when it scrolls up, the last
/// when it scrolls down. Its other end stays on its text.
pub proof fn law_auto_scroll(app: AppV, offset: u64)
    requires
        app.drag is Some,
        app.drag->0 is Select,
        app.selection is Some,
        app.drag->0->Select_content.height > 0,
        app.drag->0->Select_content.width > 0,
        offset <= u64::MAX - u16::MAX,
    ensures
        ({
            let content = app.drag->0->Select_content;
            let way = app.drag->0->Select_auto_scroll;
            let after = app.auto_scrolled(offset);
            &&& app.auto_scroll() is Some <==> way is Some
            &&& way is Some ==> {
                &&& app.auto_scroll() == Some((app.selection->0.surface, way->0))
                &&& after.selection is Some
                &&& after.selection->0.anchor == app.selection->0.anchor
                &&& after.selection->0.surface == app.selection->0.surface
                &&& way->0 < 0 ==> after.selection->0.head.1 == offset
                &&& way->0 >= 0 ==> after.selection->0.head.1 == offset + content.height - 1
                &&& after.selection->0.head.0 < content.width
                &&& app.drag->0->Select_col < content.width ==> after.selection->0.head.0
                    == app.drag->0->Select_col
            }
            &&& way is None ==> after == app
        }),
{
}

} // verus!
