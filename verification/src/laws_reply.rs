//! What clients of the control socket can rely on.

use vstd::prelude::*;

use crate::encoding;
use crate::json::JsonV;
use crate::model::{Screen, StateV};
use crate::mux;
use crate::mux::{MuxEvent, MuxV};
use crate::node;
use crate::node::{Node, PaneId, SplitDir, SurfaceId};
use crate::protocol::{Command, CommandError, ReplyV, WorkV};
use crate::server;
use crate::server::Host;
use crate::session::{Request, Session, StepV};
use crate::surface::{BrowserSource, Rgb, SurfaceKind};

verus! {

/// `value` is a record in which `name` stands for `field`.
pub open spec fn says(value: JsonV, name: Seq<char>, field: JsonV) -> bool {
    value matches JsonV::Record(fields) && fields.contains((name, field))
}

proof fn lemma_says(value: JsonV, fields: Seq<(Seq<char>, JsonV)>, i: int)
    requires
        value == JsonV::Record(fields),
        0 <= i < fields.len(),
    ensures
        says(value, fields[i].0, fields[i].1),
{
}

/// `value` shows the split tree: every split with its direction and ratio and
/// its first child before its second, every pane with its id.
pub open spec fn shows_tree(value: JsonV, tree: Node) -> bool
    decreases tree,
{
    match tree {
        Node::Leaf(pane) => says(value, "type"@, JsonV::Text("leaf"@)) && says(
            value,
            "pane"@,
            JsonV::Number(pane),
        ),
        Node::Split { dir, ratio, a, b } => {
            &&& says(value, "type"@, JsonV::Text("split"@))
            &&& dir == SplitDir::Right ==> says(value, "dir"@, JsonV::Text("right"@))
            &&& dir == SplitDir::Down ==> says(value, "dir"@, JsonV::Text("down"@))
            &&& says(value, "ratio"@, JsonV::Ratio(ratio))
            &&& exists|first: JsonV|
                #![trigger says(value, "a"@, first)]
                says(value, "a"@, first) && shows_tree(first, *a)
            &&& exists|second: JsonV|
                #![trigger says(value, "b"@, second)]
                says(value, "b"@, second) && shows_tree(second, *b)
        },
    }
}

/// `value` shows the short form of `id`, as far as there is one.
pub open spec fn shows_short_id(value: JsonV, short_ids: Map<u64, String>, id: u64) -> bool {
    &&& short_ids.contains_key(id) ==> says(value, "short_id"@, JsonV::Text(short_ids[id]@))
    &&& !short_ids.contains_key(id) ==> says(value, "short_id"@, JsonV::Text(seq![]))
}

/// `value` shows a tab that shows `surface`.
pub open spec fn shows_tab(
    value: JsonV,
    state: StateV,
    short_ids: Map<u64, String>,
    surface: SurfaceId,
) -> bool {
    let it = state.surfaces[surface];
    &&& says(value, "surface"@, JsonV::Number(surface))
    &&& shows_short_id(value, short_ids, surface)
    &&& it.kind == SurfaceKind::Pty ==> says(value, "kind"@, JsonV::Text("pty"@))
    &&& it.kind == SurfaceKind::Browser ==> says(value, "kind"@, JsonV::Text("browser"@))
    &&& it.browser_source == Some(BrowserSource::External) ==> says(
        value,
        "browser_source"@,
        JsonV::Text("external"@),
    )
    &&& it.browser_source == Some(BrowserSource::Launched) ==> says(
        value,
        "browser_source"@,
        JsonV::Text("launched"@),
    )
    &&& it.browser_source is None ==> says(value, "browser_source"@, JsonV::Null)
    &&& it.name matches Some(name) ==> says(value, "name"@, JsonV::Text(name@))
    &&& it.name is None ==> says(value, "name"@, JsonV::Null)
    &&& says(value, "title"@, JsonV::Text(it.title@))
    &&& says(value, "dead"@, JsonV::Bool(it.dead))
    &&& exists|size: JsonV|
        #![trigger says(value, "size"@, size)]
        says(value, "size"@, size) && says(size, "cols"@, JsonV::Number(it.cols as u64)) && says(
            size,
            "rows"@,
            JsonV::Number(it.rows as u64),
        )
}

/// `value` shows a pane: its tabs in their order, and which of them is
/// active.
pub open spec fn shows_pane(
    value: JsonV,
    state: StateV,
    short_ids: Map<u64, String>,
    pane: PaneId,
) -> bool {
    let it = state.panes[pane];
    &&& says(value, "id"@, JsonV::Number(pane))
    &&& shows_short_id(value, short_ids, pane)
    &&& it.name matches Some(name) ==> says(value, "name"@, JsonV::Text(name@))
    &&& it.name is None ==> says(value, "name"@, JsonV::Null)
    &&& says(value, "active_tab"@, JsonV::Number(it.active_tab as u64))
    &&& exists|tabs: Seq<JsonV>|
        #![trigger says(value, "tabs"@, JsonV::List(tabs))]
        {
            &&& says(value, "tabs"@, JsonV::List(tabs))
            &&& tabs.len() == it.tabs.len()
            &&& forall|i: int|
                0 <= i < tabs.len() ==> shows_tab(
                    #[trigger] tabs[i],
                    state,
                    short_ids,
                    it.tabs[i],
                )
        }
}

/// `value` shows a screen: its layout, its panes in the order of the layout,
/// its active pane, and whether it is the active screen.
pub open spec fn shows_screen(
    value: JsonV,
    state: StateV,
    short_ids: Map<u64, String>,
    screen: Screen,
    active: bool,
) -> bool {
    &&& says(value, "id"@, JsonV::Number(screen.id))
    &&& shows_short_id(value, short_ids, screen.id)
    &&& screen.name matches Some(name) ==> says(value, "name"@, JsonV::Text(name@))
    &&& screen.name is None ==> says(value, "name"@, JsonV::Null)
    &&& says(value, "active"@, JsonV::Bool(active))
    &&& says(value, "active_pane"@, JsonV::Number(screen.active_pane))
    &&& exists|layout: JsonV|
        #![trigger says(value, "layout"@, layout)]
        says(value, "layout"@, layout) && shows_tree(layout, screen.root)
    &&& exists|panes: Seq<JsonV>|
        #![trigger says(value, "panes"@, JsonV::List(panes))]
        {
            &&& says(value, "panes"@, JsonV::List(panes))
            &&& panes.len() == screen.root.leaves().len()
            &&& forall|i: int|
                0 <= i < panes.len() ==> shows_pane(
                    #[trigger] panes[i],
                    state,
                    short_ids,
                    screen.root.leaves()[i],
                )
        }
}

/// `value` shows workspace `w`. It is active exactly when it has the id of the
/// session's active workspace, and so for its screens.
pub open spec fn shows_workspace(
    value: JsonV,
    state: StateV,
    short_ids: Map<u64, String>,
    w: int,
) -> bool {
    let it = state.workspaces[w];
    &&& says(value, "id"@, JsonV::Number(it.id))
    &&& shows_short_id(value, short_ids, it.id)
    &&& says(value, "name"@, JsonV::Text(it.name))
    &&& says(
        value,
        "active"@,
        JsonV::Bool(it.id == state.workspaces[state.active_workspace].id),
    )
    &&& exists|screens: Seq<JsonV>|
        #![trigger says(value, "screens"@, JsonV::List(screens))]
        {
            &&& says(value, "screens"@, JsonV::List(screens))
            &&& screens.len() == it.screens.len()
            &&& forall|s: int|
                0 <= s < screens.len() ==> shows_screen(
                    #[trigger] screens[s],
                    state,
                    short_ids,
                    it.screens[s],
                    it.screens[s].id == it.screens[it.active_screen].id,
                )
        }
}

/// `value` shows the whole session, workspace by workspace.
pub open spec fn shows_session(value: JsonV, state: StateV, short_ids: Map<u64, String>) -> bool {
    exists|workspaces: Seq<JsonV>|
        #![trigger says(value, "workspaces"@, JsonV::List(workspaces))]
        {
            &&& says(value, "workspaces"@, JsonV::List(workspaces))
            &&& workspaces.len() == state.workspaces.len()
            &&& forall|w: int|
                0 <= w < workspaces.len() ==> shows_workspace(
                    #[trigger] workspaces[w],
                    state,
                    short_ids,
                    w,
                )
        }
}

proof fn lemma_shows_tree(tree: Node)
    ensures
        shows_tree(server::node_value(tree), tree),
    decreases tree,
{
    let value = server::node_value(tree);
    match tree {
        Node::Leaf(pane) => {
            let fields = seq![
                ("type"@, JsonV::Text("leaf"@)),
                ("pane"@, JsonV::Number(pane)),
            ];
            assert(value == JsonV::Record(fields));
            lemma_says(value, fields, 0);
            lemma_says(value, fields, 1);
        },
        Node::Split { dir, ratio, a, b } => {
            lemma_shows_tree(*a);
            lemma_shows_tree(*b);
            let fields = value->Record_0;
            lemma_says(value, fields, 0);
            lemma_says(value, fields, 1);
            lemma_says(value, fields, 2);
            lemma_says(value, fields, 3);
            lemma_says(value, fields, 4);
            assert(says(value, "a"@, server::node_value(*a)));
            assert(says(value, "b"@, server::node_value(*b)));
        },
    }
}

proof fn lemma_shows_tab(state: StateV, short_ids: Map<u64, String>, surface: SurfaceId)
    requires
        state.surfaces.contains_key(surface),
    ensures
        shows_tab(server::tab_value(state, short_ids, surface), state, short_ids, surface),
{
    let it = state.surfaces[surface];
    let value = server::tab_value(state, short_ids, surface);
    let fields = value->Record_0;
    lemma_says(value, fields, 0);
    lemma_says(value, fields, 1);
    lemma_says(value, fields, 2);
    lemma_says(value, fields, 3);
    lemma_says(value, fields, 4);
    lemma_says(value, fields, 5);
    lemma_says(value, fields, 6);
    lemma_says(value, fields, 7);
    let size = server::size_value(it.cols, it.rows);
    lemma_says(size, size->Record_0, 0);
    lemma_says(size, size->Record_0, 1);
    assert(says(value, "size"@, size));
}

proof fn lemma_shows_pane(state: StateV, short_ids: Map<u64, String>, pane: PaneId)
    requires
        state.wf(),
        state.panes.contains_key(pane),
    ensures
        shows_pane(server::pane_value(state, pane, short_ids), state, short_ids, pane),
{
    let it = state.panes[pane];
    let value = server::pane_value(state, pane, short_ids);
    let fields = value->Record_0;
    lemma_says(value, fields, 0);
    lemma_says(value, fields, 1);
    lemma_says(value, fields, 2);
    lemma_says(value, fields, 3);
    lemma_says(value, fields, 4);
    let tabs = it.tabs.map_values(|tab: SurfaceId| server::tab_value(state, short_ids, tab));
    assert(says(value, "tabs"@, JsonV::List(tabs)));
    assert forall|i: int| 0 <= i < tabs.len() implies shows_tab(
        #[trigger] tabs[i],
        state,
        short_ids,
        it.tabs[i],
    ) by {
        assert(it.tabs.contains(it.tabs[i]));
        assert(state.owns(pane, it.tabs[i]));
        lemma_shows_tab(state, short_ids, it.tabs[i]);
    }
}

proof fn lemma_shows_screen(
    state: StateV,
    short_ids: Map<u64, String>,
    w: int,
    s: int,
    active: bool,
)
    requires
        state.wf(),
        state.has_screen(w, s),
    ensures
        shows_screen(
            server::screen_value(state, state.screen(w, s), active, short_ids),
            state,
            short_ids,
            state.screen(w, s),
            active,
        ),
{
    let it = state.screen(w, s);
    let value = server::screen_value(state, it, active, short_ids);
    let fields = value->Record_0;
    lemma_says(value, fields, 0);
    lemma_says(value, fields, 1);
    lemma_says(value, fields, 2);
    lemma_says(value, fields, 3);
    lemma_says(value, fields, 4);
    lemma_says(value, fields, 5);
    lemma_says(value, fields, 6);
    lemma_shows_tree(it.root);
    assert(says(value, "layout"@, server::node_value(it.root)));
    let ids = it.root.leaves();
    let panes = ids.map_values(|pane: PaneId| server::pane_value(state, pane, short_ids));
    assert(says(value, "panes"@, JsonV::List(panes)));
    assert forall|i: int| 0 <= i < panes.len() implies shows_pane(
        #[trigger] panes[i],
        state,
        short_ids,
        ids[i],
    ) by {
        assert(ids.contains(ids[i]));
        node::lemma_has_leaves(it.root, ids[i]);
        assert(state.holds(w, s, ids[i]));
        lemma_shows_pane(state, short_ids, ids[i]);
    }
}

proof fn lemma_shows_workspace(state: StateV, short_ids: Map<u64, String>, w: int)
    requires
        state.wf(),
        0 <= w < state.workspaces.len(),
    ensures
        shows_workspace(server::workspace_value(state, w, short_ids), state, short_ids, w),
{
    let it = state.workspaces[w];
    let value = server::workspace_value(state, w, short_ids);
    let fields = value->Record_0;
    lemma_says(value, fields, 0);
    lemma_says(value, fields, 1);
    lemma_says(value, fields, 2);
    lemma_says(value, fields, 3);
    lemma_says(value, fields, 4);
    assert(it.wf());
    let v = state.active_workspace;
    assert((it.id == state.workspaces[v].id) == (w == v)) by {
        assert(state.is_workspace(w, it.id));
        assert(state.is_workspace(v, state.workspaces[v].id));
    }
    let screens = Seq::new(
        it.screens.len(),
        |s: int| server::screen_value(state, it.screens[s], s == it.active_screen, short_ids),
    );
    assert(says(value, "screens"@, JsonV::List(screens)));
    assert forall|s: int| 0 <= s < screens.len() implies shows_screen(
        #[trigger] screens[s],
        state,
        short_ids,
        it.screens[s],
        it.screens[s].id == it.screens[it.active_screen].id,
    ) by {
        assert(state.has_screen(w, s));
        assert(state.is_screen(w, s, it.screens[s].id));
        assert(state.is_screen(w, it.active_screen, it.screens[it.active_screen].id));
        lemma_shows_screen(state, short_ids, w, s, s == it.active_screen);
    }
}

/// A request for the workspaces changes nothing and is answered with the whole
/// session: every workspace, screen, pane and tab in its order, and what is
/// active among them.
pub proof fn law_listing(
    before: MuxV,
    host: Host,
    after: MuxV,
    reply: Result<ReplyV, CommandError>,
)
    requires
        before.wf(),
        server::handles(before, Command::ListWorkspaces, host, after, reply),
    ensures
        after == before,
        reply matches Ok(ReplyV::Done(value)) && shows_session(
            value,
            before.state,
            host.short_ids@,
        ),
{
    let state = before.state;
    let value = server::workspaces_value(state, host.short_ids@);
    let fields = value->Record_0;
    lemma_says(value, fields, 0);
    let workspaces = Seq::new(
        state.workspaces.len(),
        |w: int| server::workspace_value(state, w, host.short_ids@),
    );
    assert(says(value, "workspaces"@, JsonV::List(workspaces)));
    assert forall|w: int| 0 <= w < workspaces.len() implies shows_workspace(
        #[trigger] workspaces[w],
        state,
        host.short_ids@,
        w,
    ) by {
        lemma_shows_workspace(state, host.short_ids@, w);
    }
}

/// A listing after a workspace was selected shows that workspace, and no
/// other, as active.
pub proof fn law_select_then_list(
    before: MuxV,
    i: usize,
    host: Host,
    between: MuxV,
    done: Result<ReplyV, CommandError>,
    after: MuxV,
    reply: Result<ReplyV, CommandError>,
)
    requires
        before.wf(),
        between.wf(),
        i < before.state.workspaces.len(),
        server::handles(
            before,
            Command::SelectWorkspace { index: Some(i), delta: None },
            host,
            between,
            done,
        ),
        server::handles(between, Command::ListWorkspaces, host, after, reply),
    ensures
        reply matches Ok(ReplyV::Done(value)) && exists|workspaces: Seq<JsonV>|
            #![trigger says(value, "workspaces"@, JsonV::List(workspaces))]
            {
                &&& says(value, "workspaces"@, JsonV::List(workspaces))
                &&& workspaces.len() == before.state.workspaces.len()
                &&& forall|w: int|
                    0 <= w < workspaces.len() ==> says(
                        #[trigger] workspaces[w],
                        "active"@,
                        JsonV::Bool(w == i),
                    )
            },
{
    law_listing(between, host, after, reply);
    crate::laws_session::law_select_workspace(before, Some(i), None);
    let b = between.state;
    let value = reply->Ok_0->Done_0;
    let workspaces = choose|workspaces: Seq<JsonV>|
        #![trigger says(value, "workspaces"@, JsonV::List(workspaces))]
        {
            &&& says(value, "workspaces"@, JsonV::List(workspaces))
            &&& workspaces.len() == b.workspaces.len()
            &&& forall|w: int|
                0 <= w < workspaces.len() ==> shows_workspace(
                    #[trigger] workspaces[w],
                    b,
                    host.short_ids@,
                    w,
                )
        };
    assert forall|w: int| 0 <= w < workspaces.len() implies says(
        #[trigger] workspaces[w],
        "active"@,
        JsonV::Bool(w == i),
    ) by {
        assert(shows_workspace(workspaces[w], b, host.short_ids@, w));
        assert(b.is_workspace(w, b.workspaces[w].id));
        assert(b.is_workspace(i as int, b.workspaces[i as int].id));
    }
}

/// `value` is an event of that name about `surface`.
pub open spec fn tells(value: JsonV, name: Seq<char>, surface: SurfaceId) -> bool {
    says(value, "event"@, JsonV::Text(name)) && says(value, "surface"@, JsonV::Number(surface))
}

/// Every event goes over the socket under its own name, with what it is
/// about.
pub proof fn law_events(surface: SurfaceId, cols: u16, rows: u16)
    ensures
        tells(server::event_value(MuxEvent::SurfaceOutput(surface)), "surface-output"@, surface),
        tells(server::event_value(MuxEvent::SurfaceExited(surface)), "surface-exited"@, surface),
        tells(server::event_value(MuxEvent::TitleChanged(surface)), "title-changed"@, surface),
        tells(server::event_value(MuxEvent::Bell(surface)), "bell"@, surface),
        says(
            server::event_value(MuxEvent::TreeChanged),
            "event"@,
            JsonV::Text("tree-changed"@),
        ),
        says(server::event_value(MuxEvent::Empty), "event"@, JsonV::Text("empty"@)),
        ({
            let value = server::event_value(MuxEvent::SurfaceResized { surface, cols, rows });
            &&& tells(value, "surface-resized"@, surface)
            &&& says(value, "cols"@, JsonV::Number(cols as u64))
            &&& says(value, "rows"@, JsonV::Number(rows as u64))
        }),
{
    let output = server::event_value(MuxEvent::SurfaceOutput(surface));
    let exited = server::event_value(MuxEvent::SurfaceExited(surface));
    let title = server::event_value(MuxEvent::TitleChanged(surface));
    let bell = server::event_value(MuxEvent::Bell(surface));
    let tree = server::event_value(MuxEvent::TreeChanged);
    let empty = server::event_value(MuxEvent::Empty);
    let resized = server::event_value(MuxEvent::SurfaceResized { surface, cols, rows });
    lemma_says(output, output->Record_0, 0);
    lemma_says(output, output->Record_0, 1);
    lemma_says(exited, exited->Record_0, 0);
    lemma_says(exited, exited->Record_0, 1);
    lemma_says(title, title->Record_0, 0);
    lemma_says(title, title->Record_0, 1);
    lemma_says(bell, bell->Record_0, 0);
    lemma_says(bell, bell->Record_0, 1);
    lemma_says(tree, tree->Record_0, 0);
    lemma_says(empty, empty->Record_0, 0);
    lemma_says(resized, resized->Record_0, 0);
    lemma_says(resized, resized->Record_0, 1);
    lemma_says(resized, resized->Record_0, 2);
    lemma_says(resized, resized->Record_0, 3);
}

/// A size counts when both of its sides are given.
pub open spec fn given(cols: Option<u16>, rows: Option<u16>, size: Option<(u16, u16)>) -> bool {
    &&& cols is Some && rows is Some ==> size == Some((cols->0, rows->0))
    &&& cols is None || rows is None ==> size is None
}

/// The command uses up one id and hands the work for a surface out, or is
/// refused for the reason that the session has.
pub open spec fn hands_out(
    before: MuxV,
    asked: Result<mux::Spawn, mux::MuxError>,
    after: MuxV,
    reply: Result<ReplyV, CommandError>,
) -> bool {
    match asked {
        Ok(spawn) => {
            &&& reply == Ok::<ReplyV, CommandError>(ReplyV::Perform(WorkV::Spawn(spawn)))
            &&& spawn.id == before.next_id
            &&& after == (MuxV { next_id: (before.next_id + 1) as u64, ..before })
        },
        Err(error) => reply == Err::<ReplyV, CommandError>(CommandError::Mux(error)) && after
            == before,
    }
}

/// Commands that ask for a surface ask the session for what they name, where
/// they name it, at the size that they give.
pub proof fn law_commands_for_surfaces(
    before: MuxV,
    cmd: Command,
    host: Host,
    after: MuxV,
    reply: Result<ReplyV, CommandError>,
)
    requires
        server::handles(before, cmd, host, after, reply),
    ensures
        match cmd {
            Command::NewTab { pane, cwd, cols, rows } => exists|size: Option<(u16, u16)>|
                #![trigger before.tab_request(pane, cwd, size)]
                given(cols, rows, size) && hands_out(
                    before,
                    before.tab_request(pane, cwd, size),
                    after,
                    reply,
                ),
            Command::NewBrowserTab { url, pane, cols, rows } => exists|size: Option<(u16, u16)>|
                #![trigger before.browser_request(url, pane, size)]
                given(cols, rows, size) && hands_out(
                    before,
                    before.browser_request(url, pane, size),
                    after,
                    reply,
                ),
            Command::NewWorkspace { name, cols, rows } => exists|size: Option<(u16, u16)>|
                #![trigger before.workspace_spawn(name, size)]
                given(cols, rows, size) && hands_out(
                    before,
                    Ok(before.workspace_spawn(name, size)),
                    after,
                    reply,
                ),
            Command::NewScreen { workspace, cols, rows } => exists|size: Option<(u16, u16)>|
                #![trigger before.screen_request(workspace, size)]
                given(cols, rows, size) && hands_out(
                    before,
                    before.screen_request(workspace, size),
                    after,
                    reply,
                ),
            Command::Split { pane, dir, cols, rows } => {
                &&& dir@ == "right"@ || dir@ == "down"@ ==> {
                    &&& reply matches Ok(ReplyV::Perform(WorkV::Spawn(spawn)))
                    &&& spawn.place matches mux::Place::Split { target, dir: way }
                    &&& target == pane
                    &&& dir@ == "right"@ ==> way == SplitDir::Right
                    &&& dir@ == "down"@ ==> way == SplitDir::Down
                    &&& exists|size: Option<(u16, u16)>|
                        #![trigger before.split_request(pane, way, size)]
                        given(cols, rows, size) && hands_out(
                            before,
                            Ok(before.split_request(pane, way, size)),
                            after,
                            reply,
                        )
                }
                &&& dir@ != "right"@ && dir@ != "down"@ ==> after == before && reply == Err::<
                    ReplyV,
                    CommandError,
                >(CommandError::BadDir(dir))
            },
            _ => true,
        },
{
    reveal_strlit("right");
    reveal_strlit("down");
    match cmd {
        Command::NewTab { pane, cwd, cols, rows } => {
            let size = server::both(cols, rows);
            assert(given(cols, rows, size) && hands_out(
                before,
                before.tab_request(pane, cwd, size),
                after,
                reply,
            ));
        },
        Command::NewBrowserTab { url, pane, cols, rows } => {
            let size = server::both(cols, rows);
            assert(given(cols, rows, size) && hands_out(
                before,
                before.browser_request(url, pane, size),
                after,
                reply,
            ));
        },
        Command::NewWorkspace { name, cols, rows } => {
            let size = server::both(cols, rows);
            assert(given(cols, rows, size) && hands_out(
                before,
                Ok(before.workspace_spawn(name, size)),
                after,
                reply,
            ));
        },
        Command::NewScreen { workspace, cols, rows } => {
            let size = server::both(cols, rows);
            assert(given(cols, rows, size) && hands_out(
                before,
                before.screen_request(workspace, size),
                after,
                reply,
            ));
        },
        Command::Split { pane, dir, cols, rows } => {
            assert("right"@.len() != "down"@.len());
            if let Some(way) = server::named_dir(dir@) {
                let size = server::both(cols, rows);
                assert(given(cols, rows, size) && hands_out(
                    before,
                    Ok(before.split_request(pane, way, size)),
                    after,
                    reply,
                ));
            }
        },
        _ => {},
    }
}

/// The command went through and has nothing to say.
pub open spec fn accepted(reply: Result<ReplyV, CommandError>) -> bool {
    reply == Ok::<ReplyV, CommandError>(ReplyV::Done(JsonV::Record(seq![])))
}

/// Commands that change the session change what they name, in the way that
/// they name, or are refused because it is not there.
pub proof fn law_commands_on_session(
    before: MuxV,
    cmd: Command,
    host: Host,
    after: MuxV,
    reply: Result<ReplyV, CommandError>,
)
    requires
        server::handles(before, cmd, host, after, reply),
    ensures
        match cmd {
            Command::CloseSurface { surface } => if before.state.surfaces.contains_key(surface) {
                accepted(reply) && after == before.closed(surface)
            } else {
                reply is Err
            },
            Command::ClosePane { pane } => if before.state.panes.contains_key(pane) {
                accepted(reply) && after == before.closed_all(before.state.panes[pane].tabs)
            } else {
                reply is Err
            },
            Command::CloseScreen { screen } => if exists|w: int, s: int|
                before.state.is_screen(w, s, screen) {
                accepted(reply) && after == before.screen_closed(screen)
            } else {
                reply is Err
            },
            Command::CloseWorkspace { workspace } => if exists|w: int|
                before.state.is_workspace(w, workspace) {
                accepted(reply) && after == before.workspace_closed(workspace)
            } else {
                reply is Err
            },
            Command::RenamePane { pane, name } => if before.state.panes.contains_key(pane) {
                accepted(reply) && after == before.pane_renamed(pane, name)
            } else {
                reply is Err
            },
            Command::RenameSurface { surface, name } => if before.state.surfaces.contains_key(
                surface,
            ) {
                accepted(reply) && after == before.surface_renamed(surface, name)
            } else {
                reply is Err
            },
            Command::RenameScreen { screen, name } => if exists|w: int, s: int|
                before.state.is_screen(w, s, screen) {
                accepted(reply) && after == before.screen_renamed(screen, name)
            } else {
                reply is Err
            },
            Command::RenameWorkspace { workspace, name } => if exists|w: int|
                before.state.is_workspace(w, workspace) {
                accepted(reply) && after == before.workspace_renamed(workspace, name@)
            } else {
                reply is Err
            },
            Command::ResizeSurface { surface, cols, rows } => if before.state.surfaces.contains_key(
                surface,
            ) {
                accepted(reply) && after == before.resized(surface, cols, rows).0
            } else {
                reply is Err
            },
            Command::FocusPane { pane } => if before.state.panes.contains_key(pane) {
                accepted(reply) && after == before.pane_focused(pane)
            } else {
                reply is Err
            },
            Command::SelectTab { pane, index, delta } => accepted(reply) && after
                == before.tab_selected(pane, index, delta),
            Command::SelectScreen { index, delta } => accepted(reply) && after
                == before.screen_selected(index, delta),
            Command::SelectWorkspace { index, delta } => accepted(reply) && after
                == before.workspace_selected(index, delta),
            Command::MoveTab { surface, pane, index } => if before.state.surfaces.contains_key(
                surface,
            ) && before.state.panes.contains_key(pane) && exists|p: PaneId|
                before.state.owns(p, surface) {
                accepted(reply) && after == before.tab_moved(surface, pane, index as int)
            } else {
                reply is Err
            },
            Command::MoveWorkspace { workspace, index } => if exists|w: int|
                before.state.is_workspace(w, workspace) {
                accepted(reply) && after == before.workspace_moved(workspace, index as int)
            } else {
                reply is Err
            },
            Command::SetRatio { pane, dir, ratio } => {
                &&& dir@ == "right"@ && accepted(reply) ==> after == before.ratio_set(
                    pane,
                    SplitDir::Right,
                    ratio,
                )
                &&& dir@ == "down"@ && accepted(reply) ==> after == before.ratio_set(
                    pane,
                    SplitDir::Down,
                    ratio,
                )
                &&& dir@ != "right"@ && dir@ != "down"@ ==> reply is Err
            },
            _ => true,
        },
{
    reveal_strlit("right");
    reveal_strlit("down");
    assert("right"@.len() != "down"@.len());
}

/// Commands about a terminal hand its own work out, for that terminal.
pub proof fn law_commands_for_terminals(
    before: MuxV,
    cmd: Command,
    host: Host,
    after: MuxV,
    reply: Result<ReplyV, CommandError>,
)
    requires
        server::handles(before, cmd, host, after, reply),
        server::terminal_target(cmd) matches Some(surface)
            && before.state.surfaces.contains_key(surface)
            && before.state.surfaces[surface].kind == SurfaceKind::Pty,
    ensures
        after == before,
        reply matches Ok(ReplyV::Perform(work)) && match cmd {
            Command::Send { surface, text, bytes } => {
                &&& work matches WorkV::Write { surface: to, text: typed, bytes: raw }
                &&& to == surface && typed == text
                &&& bytes is None ==> raw is None
                &&& bytes matches Some(b64) ==> raw == Some(encoding::decoded(b64@))
            },
            Command::ReadScreen { surface } => work == WorkV::ReadScreen(surface),
            Command::VtState { surface } => work == WorkV::VtState(surface),
            Command::AttachSurface { surface } => work == WorkV::Attach(surface),
            Command::ScrollSurface { surface, delta } => work == (WorkV::Scroll { surface, delta }),
            _ => false,
        },
{
}

/// A request for who answers names the program, the protocol and the session.
pub proof fn law_identify(
    before: MuxV,
    host: Host,
    after: MuxV,
    reply: Result<ReplyV, CommandError>,
)
    requires
        server::handles(before, Command::Identify, host, after, reply),
    ensures
        after == before,
        reply matches Ok(ReplyV::Done(value)) && {
            &&& says(value, "app"@, JsonV::Text("cmux-mux"@))
            &&& says(value, "version"@, JsonV::Text(host.version@))
            &&& says(value, "session"@, JsonV::Text(before.session))
            &&& says(value, "pid"@, JsonV::Number(host.pid as u64))
            &&& says(value, "protocol"@, JsonV::Number(6))
        },
{
    let value = reply->Ok_0->Done_0;
    let fields = value->Record_0;
    lemma_says(value, fields, 0);
    lemma_says(value, fields, 1);
    lemma_says(value, fields, 2);
    lemma_says(value, fields, 3);
    lemma_says(value, fields, 4);
}

/// The lower-case digit for a value.
pub open spec fn hex_digit(n: int) -> char {
    if n < 10 {
        ('0' as int + n) as char
    } else {
        ('a' as int + (n - 10)) as char
    }
}

/// The upper-case digit for a value.
pub open spec fn hex_capital(n: int) -> char {
    if n < 10 {
        ('0' as int + n) as char
    } else {
        ('A' as int + (n - 10)) as char
    }
}

/// `text` writes `byte` with two digits, in either case.
pub open spec fn writes_byte(text: Seq<char>, i: int, byte: u8) -> bool {
    let high = byte as int / 16;
    let low = byte as int % 16;
    &&& text[i] == hex_digit(high) || text[i] == hex_capital(high)
    &&& text[i + 1] == hex_digit(low) || text[i + 1] == hex_capital(low)
}

/// `text` writes a color as `#rrggbb`.
pub open spec fn writes_color(text: Seq<char>, color: Rgb) -> bool {
    &&& text.len() == 7
    &&& text[0] == '#'
    &&& writes_byte(text, 1, color.r)
    &&& writes_byte(text, 3, color.g)
    &&& writes_byte(text, 5, color.b)
}

/// What reads as a color is what writes one, red first and blue last.
pub proof fn law_colors(text: Seq<char>, color: Rgb)
    ensures
        server::hex_color(text) == Some(color) <==> writes_color(text, color),
{
    if text.len() == 7 {
        lemma_hex_byte(text, 1, color.r);
        lemma_hex_byte(text, 3, color.g);
        lemma_hex_byte(text, 5, color.b);
    }
}

proof fn lemma_hex_byte(text: Seq<char>, i: int, byte: u8)
    ensures
        server::hex_byte(text, i) == Some(byte) <==> writes_byte(text, i, byte),
{
    let high = byte as int / 16;
    let low = byte as int % 16;
    lemma_hex_value(text[i], high);
    lemma_hex_value(text[i + 1], low);
    if let (Some(h), Some(l)) = (server::hex_value(text[i]), server::hex_value(text[i + 1])) {
        lemma_hex_value(text[i], h);
        lemma_hex_value(text[i + 1], l);
        assert(0 <= h < 16 && 0 <= l < 16);
    }
}

proof fn lemma_hex_value(c: char, n: int)
    ensures
        0 <= n < 16 ==> (server::hex_value(c) == Some(n) <==> (c == hex_digit(n) || c
            == hex_capital(n))),
        server::hex_value(c) matches Some(v) ==> 0 <= v < 16,
{
}

/// A refusal says what is wrong, and with what.
pub proof fn law_refusals_name_the_cause(id: u64)
    ensures
        CommandError::UnknownScreen(id).text() == "unknown screen "@ + crate::text::decimal(
            id as nat,
        ),
        CommandError::Mux(mux::MuxError::UnknownSurface(id)).text() == "unknown surface "@
            + crate::text::decimal(id as nat),
        CommandError::Mux(mux::MuxError::UnknownPane(id)).text() == "unknown pane "@
            + crate::text::decimal(id as nat),
        CommandError::Mux(mux::MuxError::UnknownWorkspace(id)).text() == "unknown workspace "@
            + crate::text::decimal(id as nat),
{
}

/// Setting the default colors sets those that are named, keeps the others,
/// and is refused when one that is named is no color.
pub proof fn law_set_colors(
    before: MuxV,
    fg: Option<String>,
    bg: Option<String>,
    host: Host,
    after: MuxV,
    reply: Result<ReplyV, CommandError>,
)
    requires
        server::handles(before, Command::SetDefaultColors { fg, bg }, host, after, reply),
    ensures
        reply is Ok ==> {
            &&& after.state == before.state
            &&& fg is None ==> after.default_colors.fg == before.default_colors.fg
            &&& bg is None ==> after.default_colors.bg == before.default_colors.bg
            &&& fg matches Some(text) ==> after.default_colors.fg is Some && writes_color(
                text@,
                after.default_colors.fg->0,
            )
            &&& bg matches Some(text) ==> after.default_colors.bg is Some && writes_color(
                text@,
                after.default_colors.bg->0,
            )
        },
        reply is Err ==> after == before && ((fg is Some && forall|color: Rgb|
            !writes_color(fg->0@, color)) || (bg is Some && forall|color: Rgb|
            !writes_color(bg->0@, color))),
{
    if reply is Ok {
        if let Some(text) = fg {
            law_colors(text@, after.default_colors.fg->0);
        }
        if let Some(text) = bg {
            law_colors(text@, after.default_colors.bg->0);
        }
    } else {
        if fg is Some && server::hex_color(fg->0@) is None {
            assert forall|color: Rgb| !writes_color(fg->0@, color) by {
                law_colors(fg->0@, color);
            }
        } else {
            assert forall|color: Rgb| !writes_color(bg->0@, color) by {
                law_colors(bg->0@, color);
            }
        }
    }
}

/// A replay goes out with its size and its bytes.
pub proof fn law_replay(cols: u16, rows: u16, replay: Seq<u8>)
    ensures
        ({
            let value = JsonV::Record(server::replay_fields(cols, rows, replay));
            &&& says(value, "cols"@, JsonV::Number(cols as u64))
            &&& says(value, "rows"@, JsonV::Number(rows as u64))
            &&& says(value, "data"@, JsonV::Text(encoding::encoded(replay)))
        }),
{
    let value = JsonV::Record(server::replay_fields(cols, rows, replay));
    lemma_says(value, value->Record_0, 0);
    lemma_says(value, value->Record_0, 1);
    lemma_says(value, value->Record_0, 2);
}

/// The size that a request is for, where it has one.
pub open spec fn says_size(record: JsonV, size: Option<(u16, u16)>) -> bool {
    match size {
        Some((cols, rows)) => {
            &&& says(record, "cols"@, JsonV::Number(cols as u64))
            &&& says(record, "rows"@, JsonV::Number(rows as u64))
        },
        None => !speaks_of(record, "cols"@) && !speaks_of(record, "rows"@),
    }
}

/// The record has a field of some name.
pub open spec fn speaks_of(record: JsonV, key: Seq<char>) -> bool {
    exists|i: int|
        0 <= i < record->Record_0.len() && (#[trigger] record->Record_0[i]).0 == key
}

/// The command has a name.
pub open spec fn named(sent: JsonV, name: Seq<char>) -> bool {
    says(sent, "cmd"@, JsonV::Text(name))
}

pub open spec fn holds(sent: JsonV, key: Seq<char>, n: u64) -> bool {
    says(sent, key, JsonV::Number(n))
}

pub open spec fn way(sent: JsonV, dir: SplitDir) -> bool {
    match dir {
        SplitDir::Right => says(sent, "dir"@, JsonV::Text("right"@)),
        SplitDir::Down => says(sent, "dir"@, JsonV::Text("down"@)),
    }
}

pub open spec fn says_pane(sent: JsonV, pane: Option<PaneId>) -> bool {
    match pane {
        Some(pane) => holds(sent, "pane"@, pane),
        None => says(sent, "pane"@, JsonV::Null),
    }
}

/// The command of the same name as the request, with every argument of the
/// request under its own key.
pub open spec fn sends(request: Request, sent: JsonV) -> bool {
    match request {
        Request::NewWorkspace { size } => named(sent, "new-workspace"@) && says_size(sent, size),
        Request::NewScreen { size } => named(sent, "new-screen"@) && says_size(sent, size),
        Request::NewTab { pane, size } => named(sent, "new-tab"@) && says_size(sent, size)
            && says_pane(sent, pane),
        Request::NewBrowserTab { url, pane, size } => named(sent, "new-browser-tab"@)
            && says_size(sent, size) && says(sent, "url"@, JsonV::Text(url@))
            && says_pane(sent, pane),
        Request::Split { pane, dir, size } => named(sent, "split"@) && says_size(sent, size)
            && holds(sent, "pane"@, pane) && way(sent, dir),
        Request::SetRatio { pane, dir, ratio } => {
            &&& named(sent, "set-ratio"@)
            &&& holds(sent, "pane"@, pane)
            &&& way(sent, dir)
            &&& says(sent, "ratio"@, JsonV::Ratio(ratio))
        },
        Request::MoveTab { surface, pane, index } => {
            &&& named(sent, "move-tab"@)
            &&& holds(sent, "surface"@, surface)
            &&& holds(sent, "pane"@, pane)
            &&& holds(sent, "index"@, index as u64)
        },
        Request::MoveWorkspace { workspace, index } => {
            &&& named(sent, "move-workspace"@)
            &&& holds(sent, "workspace"@, workspace)
            &&& holds(sent, "index"@, index as u64)
        },
        Request::CloseSurface { surface } => {
            &&& named(sent, "close-surface"@)
            &&& holds(sent, "surface"@, surface)
        },
        Request::ClosePane { pane } => named(sent, "close-pane"@) && holds(sent, "pane"@, pane),
        Request::CloseScreen { screen } => {
            &&& named(sent, "close-screen"@)
            &&& holds(sent, "screen"@, screen)
        },
        Request::CloseWorkspace { workspace } => {
            &&& named(sent, "close-workspace"@)
            &&& holds(sent, "workspace"@, workspace)
        },
        Request::RenameSurface { surface, name } => {
            &&& named(sent, "rename-surface"@)
            &&& holds(sent, "surface"@, surface)
            &&& says(sent, "name"@, JsonV::Text(name@))
        },
        Request::RenameScreen { screen, name } => {
            &&& named(sent, "rename-screen"@)
            &&& holds(sent, "screen"@, screen)
            &&& says(sent, "name"@, JsonV::Text(name@))
        },
        Request::RenameWorkspace { workspace, name } => {
            &&& named(sent, "rename-workspace"@)
            &&& holds(sent, "workspace"@, workspace)
            &&& says(sent, "name"@, JsonV::Text(name@))
        },
        Request::ResizeSurface { surface, cols, rows } => {
            &&& named(sent, "resize-surface"@)
            &&& holds(sent, "surface"@, surface)
            &&& says_size(sent, Some((cols, rows)))
        },
        Request::FocusPane { pane } => named(sent, "focus-pane"@) && holds(sent, "pane"@, pane),
        Request::SelectTab { pane, index, delta } => {
            &&& named(sent, "select-tab"@)
            &&& says_pane(sent, pane)
            &&& says_selection(sent, index, delta)
        },
        Request::SelectScreen { index, delta } => named(sent, "select-screen"@)
            && says_selection(sent, index, delta),
        Request::SelectWorkspace { index, delta } => named(sent, "select-workspace"@)
            && says_selection(sent, index, delta),
    }
}

proof fn lemma_sends_fresh(request: Request)
    requires
        request is NewWorkspace || request is NewScreen || request is NewTab
            || request is NewBrowserTab || request is Split,
    ensures
        sends(request, JsonV::Record(crate::session::request_fields(request))),
{
    let sent = JsonV::Record(crate::session::request_fields(request));
    let fields = crate::session::request_fields(request);
    let size = match request {
        Request::NewWorkspace { size } => size,
        Request::NewScreen { size } => size,
        Request::NewTab { size, .. } => size,
        Request::NewBrowserTab { size, .. } => size,
        Request::Split { size, .. } => size,
        _ => None,
    };
    let n = fields.len() as int;
    lemma_says(sent, fields, 0);
    if n > 1 {
        lemma_says(sent, fields, 1);
    }
    if n > 2 {
        lemma_says(sent, fields, 2);
    }
    if size is Some {
        lemma_says(sent, fields, n - 2);
        lemma_says(sent, fields, n - 1);
    }
    assert(says_size(sent, size)) by {
        lemma_keys();
    }
}

proof fn lemma_sends_move(request: Request)
    requires
        request is MoveTab || request is MoveWorkspace,
    ensures
        sends(request, JsonV::Record(crate::session::request_fields(request))),
{
    let sent = JsonV::Record(crate::session::request_fields(request));
    let fields = crate::session::request_fields(request);
    let n = fields.len() as int;
    lemma_says(sent, fields, 0);
    lemma_says(sent, fields, 1);
    if n > 2 {
        lemma_says(sent, fields, 2);
    }
    if n > 3 {
        lemma_says(sent, fields, 3);
    }
}

proof fn lemma_sends_ratio(request: Request)
    requires
        request is SetRatio,
    ensures
        sends(request, JsonV::Record(crate::session::request_fields(request))),
{
    let sent = JsonV::Record(crate::session::request_fields(request));
    let fields = crate::session::request_fields(request);
    lemma_says(sent, fields, 0);
    lemma_says(sent, fields, 1);
    lemma_says(sent, fields, 2);
    lemma_says(sent, fields, 3);
}

proof fn lemma_sends_size(request: Request)
    requires
        request is ResizeSurface,
    ensures
        sends(request, JsonV::Record(crate::session::request_fields(request))),
{
    let sent = JsonV::Record(crate::session::request_fields(request));
    let fields = crate::session::request_fields(request);
    lemma_says(sent, fields, 0);
    lemma_says(sent, fields, 1);
    lemma_says(sent, fields, 2);
    lemma_says(sent, fields, 3);
}

proof fn lemma_sends_one_id(request: Request)
    requires
        request is CloseSurface || request is ClosePane || request is CloseScreen
            || request is CloseWorkspace || request is FocusPane,
    ensures
        sends(request, JsonV::Record(crate::session::request_fields(request))),
{
    let sent = JsonV::Record(crate::session::request_fields(request));
    let fields = crate::session::request_fields(request);
    let n = fields.len() as int;
    lemma_says(sent, fields, 0);
    lemma_says(sent, fields, 1);
    if n > 2 {
        lemma_says(sent, fields, 2);
    }
    if n > 3 {
        lemma_says(sent, fields, 3);
    }
}

proof fn lemma_sends_name(request: Request)
    requires
        request is RenameSurface || request is RenameScreen || request is RenameWorkspace,
    ensures
        sends(request, JsonV::Record(crate::session::request_fields(request))),
{
    let sent = JsonV::Record(crate::session::request_fields(request));
    let fields = crate::session::request_fields(request);
    let n = fields.len() as int;
    lemma_says(sent, fields, 0);
    lemma_says(sent, fields, 1);
    if n > 2 {
        lemma_says(sent, fields, 2);
    }
    if n > 3 {
        lemma_says(sent, fields, 3);
    }
}

proof fn lemma_sends_selection(request: Request)
    requires
        request is SelectTab || request is SelectScreen || request is SelectWorkspace,
    ensures
        sends(request, JsonV::Record(crate::session::request_fields(request))),
{
    let sent = JsonV::Record(crate::session::request_fields(request));
    let fields = crate::session::request_fields(request);
    let n = fields.len() as int;
    lemma_says(sent, fields, 0);
    lemma_says(sent, fields, 1);
    if n > 2 {
        lemma_says(sent, fields, 2);
    }
    if n > 3 {
        lemma_says(sent, fields, 3);
    }
}

/// A session in this process serves a request itself. A remote one is sent
/// the command of the same name, with every argument of the request under its
/// own key.
pub proof fn law_requests(request: Request)
    ensures
        Session::Local.route(request) == StepV::Serve(request),
        Session::Remote.route(request) is Send,
        sends(request, Session::Remote.route(request)->Send_0),
{
    if request is NewWorkspace || request is NewScreen || request is NewTab
        || request is NewBrowserTab || request is Split {
        lemma_sends_fresh(request);
    } else if request is MoveTab || request is MoveWorkspace {
        lemma_sends_move(request);
    } else if request is SetRatio {
        lemma_sends_ratio(request);
    } else if request is ResizeSurface {
        lemma_sends_size(request);
    } else if request is RenameSurface || request is RenameScreen || request is RenameWorkspace {
        lemma_sends_name(request);
    } else if request is SelectTab || request is SelectScreen || request is SelectWorkspace {
        lemma_sends_selection(request);
    } else {
        lemma_sends_one_id(request);
    }
}

/// What is to be selected, by its place or by a number of steps.
pub open spec fn says_selection(
    record: JsonV,
    index: Option<usize>,
    delta: Option<isize>,
) -> bool {
    &&& match index {
        Some(index) => says(record, "index"@, JsonV::Number(index as u64)),
        None => says(record, "index"@, JsonV::Null),
    }
    &&& match delta {
        Some(delta) => says(record, "delta"@, JsonV::Integer(delta as i64)),
        None => says(record, "delta"@, JsonV::Null),
    }
}

/// The keys of a command are told apart.
proof fn lemma_keys()
    ensures
        "cmd"@ != "pane"@,
        "cmd"@ != "cols"@,
        "cmd"@ != "rows"@,
        "pane"@ != "cols"@,
        "pane"@ != "rows"@,
        "url"@ != "cols"@,
        "url"@ != "rows"@,
        "dir"@ != "cols"@,
        "dir"@ != "rows"@,
{
    reveal_strlit("cmd");
    reveal_strlit("pane");
    reveal_strlit("cols");
    reveal_strlit("rows");
    reveal_strlit("url");
    reveal_strlit("dir");
    assert("pane"@[0] == 'p');
    assert("cols"@.len() == 4);
    assert("cmd"@.len() == 3);
    assert("rows"@[0] == 'r');
}

} // verus!
