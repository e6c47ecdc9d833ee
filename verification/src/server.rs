//! The control socket: what each request does and how it is answered.

use std::collections::HashMap;

use vstd::prelude::*;

use crate::encoding;
use crate::encoding::{decode, encode};
use crate::json;
use crate::json::{empty_record, list, optional_text, Fields, Json, JsonV};
use crate::model::{Screen, State, StateV, WorkspaceV};
use crate::mux;
use crate::mux::{Mux, MuxError, MuxEvent, MuxV};
use crate::node::{Node, PaneId, SplitDir, SurfaceId};
use crate::protocol::{Command, CommandError, Reply, ReplyV, Work, WorkV, PROTOCOL_VERSION};
use crate::surface::{DefaultColors, Rgb, Surface, SurfaceKind};
use crate::text;
use crate::text::same_text;

verus! {

broadcast use vstd::std_specs::hash::group_hash_axioms;

/// Default socket path for a session, below the platform's runtime directory.
pub open spec fn socket_path(runtime_dir: Seq<char>, session: Seq<char>) -> Seq<char> {
    let file = session + ".sock"@;
    if file[0] == '/' {
        file
    } else if runtime_dir.len() == 0 || runtime_dir.last() == '/' {
        runtime_dir + file
    } else {
        runtime_dir + "/"@ + file
    }
}

/// The socket's file in `runtime_dir`. A session name that is an absolute
/// path stands for itself.
pub fn default_socket_path(runtime_dir: &str, session: &str) -> (path: String)
    ensures
        path@ == socket_path(runtime_dir@, session@),
{
    proof {
        reveal_strlit(".sock");
    }
    let file = text::concat(session, ".sock");
    let len: usize = runtime_dir.unicode_len();
    if file.as_str().get_char(0) == '/' {
        file
    } else if len == 0 || runtime_dir.get_char(len - 1) == '/' {
        text::concat(runtime_dir, file.as_str())
    } else {
        text::concat(text::concat(runtime_dir, "/").as_str(), file.as_str())
    }
}

/// What to do about the socket's path before it is bound.
#[derive(Debug)]
pub enum BindStep {
    Bind,
    /// Nobody answers there: remove the file first.
    RemoveStale,
    /// Another instance answers there.
    Refuse(String),
}

/// A live socket is never clobbered, a stale one is removed. `exists` and
/// `answers` say what is found at the path.
pub fn bind_step(path: &str, exists: bool, answers: bool) -> (step: BindStep)
    ensures
        match step {
            BindStep::Bind => !exists,
            BindStep::RemoveStale => exists && !answers,
            BindStep::Refuse(error) => exists && answers && error@ == "session socket "@ + path@
                + " is already in use (another instance running?)"@,
        },
{
    if !exists {
        BindStep::Bind
    } else if answers {
        BindStep::Refuse(
            text::concat(
                text::concat("session socket ", path).as_str(),
                " is already in use (another instance running?)",
            ),
        )
    } else {
        BindStep::RemoveStale
    }
}

pub open spec fn dir_text(dir: SplitDir) -> Seq<char> {
    match dir {
        SplitDir::Right => "right"@,
        SplitDir::Down => "down"@,
    }
}

/// The direction that a text names.
pub open spec fn named_dir(text: Seq<char>) -> Option<SplitDir> {
    if text == "right"@ {
        Some(SplitDir::Right)
    } else if text == "down"@ {
        Some(SplitDir::Down)
    } else {
        None
    }
}

fn parse_dir(text: String) -> (dir: Result<SplitDir, CommandError>)
    ensures
        match named_dir(text@) {
            Some(named) => dir == Ok::<SplitDir, CommandError>(named),
            None => dir == Err::<SplitDir, CommandError>(CommandError::BadDir(text)),
        },
{
    if same_text(text.as_str(), "right") {
        Ok(SplitDir::Right)
    } else if same_text(text.as_str(), "down") {
        Ok(SplitDir::Down)
    } else {
        Err(CommandError::BadDir(text))
    }
}

/// The value of a hexadecimal digit.
pub open spec fn hex_value(c: char) -> Option<int> {
    let n = c as int;
    if 48 <= n <= 57 {
        Some(n - 48)
    } else if 97 <= n <= 102 {
        Some(n - 87)
    } else if 65 <= n <= 70 {
        Some(n - 55)
    } else {
        None
    }
}

fn nibble(c: char) -> (value: Option<u8>)
    ensures
        match value {
            Some(value) => hex_value(c) == Some(value as int) && value < 16,
            None => hex_value(c) is None,
        },
{
    let n: u32 = c as u32;
    if 48 <= n && n <= 57 {
        Some((n - 48) as u8)
    } else if 97 <= n && n <= 102 {
        Some((n - 87) as u8)
    } else if 65 <= n && n <= 70 {
        Some((n - 55) as u8)
    } else {
        None
    }
}

/// The byte that two hexadecimal digits at `i` stand for.
pub open spec fn hex_byte(text: Seq<char>, i: int) -> Option<u8> {
    match (hex_value(text[i]), hex_value(text[i + 1])) {
        (Some(high), Some(low)) => Some((16 * high + low) as u8),
        _ => None,
    }
}

fn hex(text: &str, i: usize) -> (byte: Option<u8>)
    requires
        i + 1 < text@.len() <= 7,
    ensures
        byte == hex_byte(text@, i as int),
{
    match (nibble(text.get_char(i)), nibble(text.get_char(i + 1))) {
        (Some(high), Some(low)) => Some(16 * high + low),
        _ => None,
    }
}

/// The color that `#rrggbb` stands for.
pub open spec fn hex_color(text: Seq<char>) -> Option<Rgb> {
    if text.len() == 7 && text[0] == '#' {
        match (hex_byte(text, 1), hex_byte(text, 3), hex_byte(text, 5)) {
            (Some(r), Some(g), Some(b)) => Some(Rgb { r, g, b }),
            _ => None,
        }
    } else {
        None
    }
}

/// Reads a color written as `#rrggbb`.
pub fn parse_hex_color(value: &str) -> (color: Result<Rgb, CommandError>)
    ensures
        match color {
            Ok(color) => hex_color(value@) == Some(color),
            Err(error) => hex_color(value@) is None && error is BadColor && error->BadColor_0@
                == value@,
        },
{
    if value.unicode_len() == 7 && value.get_char(0) == '#' {
        if let (Some(r), Some(g), Some(b)) = (hex(value, 1), hex(value, 3), hex(value, 5)) {
            return Ok(Rgb { r, g, b });
        }
    }
    Err(CommandError::BadColor(value.to_owned()))
}

/// Terminal commands are for terminals.
pub fn require_pty(surface: &Surface) -> (allowed: Result<(), CommandError>)
    ensures
        match allowed {
            Ok(_) => surface.kind == SurfaceKind::Pty,
            Err(error) => surface.kind == SurfaceKind::Browser && error is NotPty,
        },
{
    match surface.kind {
        SurfaceKind::Pty => Ok(()),
        SurfaceKind::Browser => Err(CommandError::NotPty),
    }
}

/// A split tree.
pub open spec fn node_value(node: Node) -> JsonV
    decreases node,
{
    match node {
        Node::Leaf(id) => JsonV::Record(
            seq![("type"@, JsonV::Text("leaf"@)), ("pane"@, JsonV::Number(id))],
        ),
        Node::Split { dir, ratio, a, b } => JsonV::Record(
            seq![
                ("type"@, JsonV::Text("split"@)),
                ("dir"@, JsonV::Text(dir_text(dir))),
                ("ratio"@, JsonV::Ratio(ratio)),
                ("a"@, node_value(*a)),
                ("b"@, node_value(*b)),
            ],
        ),
    }
}

/// The short id of `id`, or nothing.
pub open spec fn short_id(short_ids: Map<u64, String>, id: u64) -> Seq<char> {
    if short_ids.contains_key(id) {
        short_ids[id]@
    } else {
        seq![]
    }
}

/// One tab. A tab whose surface is gone counts as a dead terminal.
pub open spec fn tab_value(state: StateV, short_ids: Map<u64, String>, id: SurfaceId) -> JsonV {
    let short = JsonV::Text(short_id(short_ids, id));
    if state.surfaces.contains_key(id) {
        let surface = state.surfaces[id];
        JsonV::Record(
            seq![
                ("surface"@, JsonV::Number(id)),
                ("short_id"@, short),
                ("kind"@, JsonV::Text(surface.kind.text())),
                (
                    "browser_source"@,
                    match surface.browser_source {
                        Some(source) => JsonV::Text(source.text()),
                        None => JsonV::Null,
                    },
                ),
                ("name"@, json::text_or_null(surface.name)),
                ("title"@, JsonV::Text(surface.title@)),
                ("size"@, size_value(surface.cols, surface.rows)),
                ("dead"@, JsonV::Bool(surface.dead)),
            ],
        )
    } else {
        JsonV::Record(
            seq![
                ("surface"@, JsonV::Number(id)),
                ("short_id"@, short),
                ("kind"@, JsonV::Text("pty"@)),
                ("browser_source"@, JsonV::Null),
                ("name"@, JsonV::Null),
                ("title"@, JsonV::Text(seq![])),
                ("size"@, JsonV::Null),
                ("dead"@, JsonV::Bool(true)),
            ],
        )
    }
}

pub open spec fn size_value(cols: u16, rows: u16) -> JsonV {
    JsonV::Record(
        seq![("cols"@, JsonV::Number(cols as u64)), ("rows"@, JsonV::Number(rows as u64))],
    )
}

/// One pane with its tabs.
pub open spec fn pane_value(state: StateV, id: PaneId, short_ids: Map<u64, String>) -> JsonV {
    if state.panes.contains_key(id) {
        let pane = state.panes[id];
        JsonV::Record(
            seq![
                ("id"@, JsonV::Number(id)),
                ("short_id"@, JsonV::Text(short_id(short_ids, id))),
                ("name"@, json::text_or_null(pane.name)),
                ("active_tab"@, JsonV::Number(pane.active_tab as u64)),
                (
                    "tabs"@,
                    JsonV::List(
                        pane.tabs.map_values(|tab: SurfaceId| tab_value(state, short_ids, tab)),
                    ),
                ),
            ],
        )
    } else {
        JsonV::Record(seq![("id"@, JsonV::Number(id)), ("dead"@, JsonV::Bool(true))])
    }
}

/// One screen with its layout and panes.
pub open spec fn screen_value(
    state: StateV,
    screen: Screen,
    active: bool,
    short_ids: Map<u64, String>,
) -> JsonV {
    JsonV::Record(
        seq![
            ("id"@, JsonV::Number(screen.id)),
            ("short_id"@, JsonV::Text(short_id(short_ids, screen.id))),
            ("name"@, json::text_or_null(screen.name)),
            ("active"@, JsonV::Bool(active)),
            ("active_pane"@, JsonV::Number(screen.active_pane)),
            ("layout"@, node_value(screen.root)),
            (
                "panes"@,
                JsonV::List(
                    screen.root.leaves().map_values(
                        |pane: PaneId| pane_value(state, pane, short_ids),
                    ),
                ),
            ),
        ],
    )
}

/// One workspace with its screens.
pub open spec fn workspace_value(state: StateV, w: int, short_ids: Map<u64, String>) -> JsonV {
    let ws = state.workspaces[w];
    JsonV::Record(
        seq![
            ("id"@, JsonV::Number(ws.id)),
            ("short_id"@, JsonV::Text(short_id(short_ids, ws.id))),
            ("name"@, JsonV::Text(ws.name)),
            ("active"@, JsonV::Bool(w == state.active_workspace)),
            (
                "screens"@,
                JsonV::List(
                    Seq::new(
                        ws.screens.len(),
                        |s: int|
                            screen_value(state, ws.screens[s], s == ws.active_screen, short_ids),
                    ),
                ),
            ),
        ],
    )
}

/// The whole tree.
pub open spec fn workspaces_value(state: StateV, short_ids: Map<u64, String>) -> JsonV {
    JsonV::Record(
        seq![
            (
                "workspaces"@,
                JsonV::List(
                    Seq::new(
                        state.workspaces.len(),
                        |w: int| workspace_value(state, w, short_ids),
                    ),
                ),
            ),
        ],
    )
}

pub fn node_json(node: &Node) -> (value: Json)
    ensures
        value@ == node_value(*node),
    decreases node,
{
    let mut fields = Fields::new();
    match node {
        Node::Leaf(id) => {
            fields.put_text("type", "leaf");
            fields.put_number("pane", *id);
        },
        Node::Split { dir, ratio, a, b } => {
            fields.put_text("type", "split");
            fields.put_text(
                "dir",
                match dir {
                    SplitDir::Right => "right",
                    SplitDir::Down => "down",
                },
            );
            fields.put("ratio", Json::Ratio(*ratio));
            fields.put("a", node_json(a));
            fields.put("b", node_json(b));
        },
    }
    assert(fields@ =~= node_value(*node)->Record_0);
    fields.record()
}

fn put_short_id(fields: &mut Fields, short_ids: &HashMap<u64, String>, id: u64)
    ensures
        final(fields)@ == old(fields)@.push(
            ("short_id"@, JsonV::Text(short_id(short_ids@, id))),
        ),
{
    match short_ids.get(&id) {
        Some(short) => fields.put_text("short_id", short.as_str()),
        None => {
            let none = String::new();
            assert(none@ =~= seq![]);
            fields.put("short_id", Json::Text(none));
        },
    }
}

fn size_json(cols: u16, rows: u16) -> (value: Json)
    ensures
        value@ == size_value(cols, rows),
{
    let mut fields = Fields::new();
    fields.put_number("cols", cols as u64);
    fields.put_number("rows", rows as u64);
    assert(fields@ =~= size_value(cols, rows)->Record_0);
    fields.record()
}

fn tab_json(state: &State, short_ids: &HashMap<u64, String>, id: SurfaceId) -> (value: Json)
    ensures
        value@ == tab_value(state@, short_ids@, id),
{
    let mut fields = Fields::new();
    fields.put_number("surface", id);
    put_short_id(&mut fields, short_ids, id);
    match state.surfaces.get(&id) {
        Some(surface) => {
            fields.put_text("kind", surface.kind.as_str());
            fields.put(
                "browser_source",
                match surface.browser_source {
                    Some(source) => Json::Text(source.as_str().to_owned()),
                    None => Json::Null,
                },
            );
            fields.put("name", optional_text(&surface.name));
            fields.put_text("title", surface.title.as_str());
            fields.put("size", size_json(surface.cols, surface.rows));
            fields.put("dead", Json::Bool(surface.dead));
        },
        None => {
            fields.put_text("kind", "pty");
            fields.put("browser_source", Json::Null);
            fields.put("name", Json::Null);
            let none = String::new();
            assert(none@ =~= seq![]);
            fields.put("title", Json::Text(none));
            fields.put("size", Json::Null);
            fields.put("dead", Json::Bool(true));
        },
    }
    assert(fields@ =~= tab_value(state@, short_ids@, id)->Record_0);
    fields.record()
}

pub fn pane_json(state: &State, id: PaneId, short_ids: &HashMap<u64, String>) -> (value: Json)
    ensures
        value@ == pane_value(state@, id, short_ids@),
{
    let mut fields = Fields::new();
    fields.put_number("id", id);
    let Some(pane) = state.panes.get(&id) else {
        fields.put("dead", Json::Bool(true));
        assert(fields@ =~= pane_value(state@, id, short_ids@)->Record_0);
        return fields.record();
    };
    put_short_id(&mut fields, short_ids, id);
    fields.put("name", optional_text(&pane.name));
    fields.put_number("active_tab", pane.active_tab as u64);
    let mut tabs: Vec<Json> = Vec::new();
    let mut i: usize = 0;
    while i < pane.tabs.len()
        invariant
            i <= pane.tabs.len(),
            tabs@.len() == i,
            forall|j: int|
                0 <= j < i ==> (#[trigger] tabs@[j])@ == tab_value(
                    state@,
                    short_ids@,
                    pane.tabs@[j],
                ),
        decreases pane.tabs.len() - i,
    {
        tabs.push(tab_json(state, short_ids, pane.tabs[i]));
        i = i + 1;
    }
    assert(tabs@.map_values(|item: Json| item@) =~= pane.tabs@.map_values(
        |tab: SurfaceId| tab_value(state@, short_ids@, tab),
    ));
    fields.put("tabs", list(tabs));
    assert(fields@ =~= pane_value(state@, id, short_ids@)->Record_0);
    fields.record()
}

pub fn screen_json(
    state: &State,
    screen: &Screen,
    active: bool,
    short_ids: &HashMap<u64, String>,
) -> (value: Json)
    ensures
        value@ == screen_value(state@, *screen, active, short_ids@),
{
    let mut ids: Vec<PaneId> = Vec::new();
    screen.root.pane_ids(&mut ids);
    assert(ids@ =~= screen.root.leaves());
    let mut panes: Vec<Json> = Vec::new();
    let mut i: usize = 0;
    while i < ids.len()
        invariant
            i <= ids.len(),
            panes@.len() == i,
            forall|j: int|
                0 <= j < i ==> (#[trigger] panes@[j])@ == pane_value(state@, ids@[j], short_ids@),
        decreases ids.len() - i,
    {
        panes.push(pane_json(state, ids[i], short_ids));
        i = i + 1;
    }
    assert(panes@.map_values(|item: Json| item@) =~= ids@.map_values(
        |pane: PaneId| pane_value(state@, pane, short_ids@),
    ));
    let mut fields = Fields::new();
    fields.put_number("id", screen.id);
    put_short_id(&mut fields, short_ids, screen.id);
    fields.put("name", optional_text(&screen.name));
    fields.put("active", Json::Bool(active));
    fields.put_number("active_pane", screen.active_pane);
    fields.put("layout", node_json(&screen.root));
    fields.put("panes", list(panes));
    assert(fields@ =~= screen_value(state@, *screen, active, short_ids@)->Record_0);
    fields.record()
}

fn workspace_json(state: &State, w: usize, short_ids: &HashMap<u64, String>) -> (value: Json)
    requires
        w < state.workspaces@.len(),
    ensures
        value@ == workspace_value(state@, w as int, short_ids@),
{
    let ws = &state.workspaces[w];
    let mut screens: Vec<Json> = Vec::new();
    let mut s: usize = 0;
    while s < ws.screens.len()
        invariant
            s <= ws.screens.len(),
            screens@.len() == s,
            forall|j: int|
                0 <= j < s ==> (#[trigger] screens@[j])@ == screen_value(
                    state@,
                    ws.screens@[j],
                    j == ws.active_screen,
                    short_ids@,
                ),
        decreases ws.screens.len() - s,
    {
        screens.push(screen_json(state, &ws.screens[s], s == ws.active_screen, short_ids));
        s = s + 1;
    }
    let ghost v = state@.workspaces[w as int];
    assert(screens@.map_values(|item: Json| item@) =~= Seq::new(
        v.screens.len(),
        |s: int| screen_value(state@, v.screens[s], s == v.active_screen, short_ids@),
    ));
    let mut fields = Fields::new();
    fields.put_number("id", ws.id);
    put_short_id(&mut fields, short_ids, ws.id);
    fields.put_text("name", ws.name.as_str());
    fields.put("active", Json::Bool(w == state.active_workspace));
    fields.put("screens", list(screens));
    assert(fields@ =~= workspace_value(state@, w as int, short_ids@)->Record_0);
    fields.record()
}

/// The whole tree. `short_ids` holds the short forms of the ids in it.
pub fn workspaces_json(state: &State, short_ids: &HashMap<u64, String>) -> (value: Json)
    ensures
        value@ == workspaces_value(state@, short_ids@),
{
    let mut workspaces: Vec<Json> = Vec::new();
    let mut w: usize = 0;
    while w < state.workspaces.len()
        invariant
            w <= state.workspaces.len(),
            workspaces@.len() == w,
            forall|j: int|
                0 <= j < w ==> (#[trigger] workspaces@[j])@ == workspace_value(
                    state@,
                    j,
                    short_ids@,
                ),
        decreases state.workspaces.len() - w,
    {
        workspaces.push(workspace_json(state, w, short_ids));
        w = w + 1;
    }
    assert(workspaces@.map_values(|item: Json| item@) =~= Seq::new(
        state@.workspaces.len(),
        |w: int| workspace_value(state@, w, short_ids@),
    ));
    let mut fields = Fields::new();
    fields.put("workspaces", list(workspaces));
    fields.record()
}

/// What a reply needs to know of the process.
#[derive(Debug)]
pub struct Host {
    pub version: String,
    pub pid: u32,
    /// The short forms of the ids in the tree.
    pub short_ids: HashMap<u64, String>,
}

/// Who answers.
pub open spec fn identity_value(session: Seq<char>, version: Seq<char>, pid: u32) -> JsonV {
    JsonV::Record(
        seq![
            ("app"@, JsonV::Text("cmux-mux"@)),
            ("version"@, JsonV::Text(version)),
            ("protocol"@, JsonV::Number(PROTOCOL_VERSION)),
            ("session"@, JsonV::Text(session)),
            ("pid"@, JsonV::Number(pid as u64)),
        ],
    )
}

/// Why a terminal command on `id` is refused, if it is.
pub open spec fn pty_refusal(state: StateV, id: SurfaceId) -> Option<CommandError> {
    if !state.surfaces.contains_key(id) {
        Some(CommandError::Mux(MuxError::UnknownSurface(id)))
    } else if state.surfaces[id].kind == SurfaceKind::Browser {
        Some(CommandError::NotPty)
    } else {
        None
    }
}

/// A size, when both sides are given.
pub open spec fn both(cols: Option<u16>, rows: Option<u16>) -> Option<(u16, u16)> {
    match (cols, rows) {
        (Some(cols), Some(rows)) => Some((cols, rows)),
        _ => None,
    }
}

/// The color that a request leaves behind: the one it names, or the current
/// one. `None` when it names none that can be read.
pub open spec fn picked(value: Option<String>, current: Option<Rgb>) -> Option<Option<Rgb>> {
    match value {
        Some(text) => match hex_color(text@) {
            Some(color) => Some(Some(color)),
            None => None,
        },
        None => Some(current),
    }
}

/// The value of a reply.
pub open spec fn reply_value(reply: Result<Reply, CommandError>) -> Result<ReplyV, CommandError> {
    match reply {
        Ok(reply) => Ok(reply@),
        Err(error) => Err(error),
    }
}

/// The answer to a request that went through and has nothing to say.
pub open spec fn accepted() -> Result<ReplyV, CommandError> {
    Ok(ReplyV::Done(JsonV::Record(seq![])))
}

/// The answer to a request that needs work from outside.
pub open spec fn needs(work: WorkV) -> Result<ReplyV, CommandError> {
    Ok(ReplyV::Perform(work))
}

/// A request that asks for a surface.
pub open spec fn asks_for(
    before: MuxV,
    request: Result<mux::Spawn, MuxError>,
    after: MuxV,
    reply: Result<ReplyV, CommandError>,
) -> bool {
    match request {
        Ok(spawn) => after == before.one_id_used() && reply == needs(WorkV::Spawn(spawn)),
        Err(error) => after == before && reply == Err::<ReplyV, CommandError>(
            CommandError::Mux(error),
        ),
    }
}

/// A request that is refused with `error` unless `valid`, and otherwise turns
/// the session into `next`.
pub open spec fn does(
    before: MuxV,
    valid: bool,
    error: CommandError,
    next: MuxV,
    after: MuxV,
    reply: Result<ReplyV, CommandError>,
) -> bool {
    if valid {
        after == next && reply == accepted()
    } else {
        after == before && reply == Err::<ReplyV, CommandError>(error)
    }
}

/// A terminal command leaves the session alone.
pub open spec fn reads(
    before: MuxV,
    surface: SurfaceId,
    work: WorkV,
    after: MuxV,
    reply: Result<ReplyV, CommandError>,
) -> bool {
    &&& after == before
    &&& reply == match pty_refusal(before.state, surface) {
        Some(error) => Err(error),
        None => needs(work),
    }
}

/// `cmd` turns `before` into `after` and is answered with `reply`.
pub open spec fn handles(
    before: MuxV,
    cmd: Command,
    host: Host,
    after: MuxV,
    reply: Result<ReplyV, CommandError>,
) -> bool {
    let state = before.state;
    match cmd {
        Command::Identify => after == before && reply == Ok::<ReplyV, CommandError>(
            ReplyV::Done(identity_value(before.session, host.version@, host.pid)),
        ),
        Command::ListWorkspaces => after == before && reply == Ok::<ReplyV, CommandError>(
            ReplyV::Done(workspaces_value(state, host.short_ids@)),
        ),
        Command::Send { surface, text, bytes } => reads(
            before,
            surface,
            WorkV::Write {
                surface,
                text,
                bytes: match bytes {
                    Some(b64) => Some(encoding::decoded(b64@)),
                    None => None,
                },
            },
            after,
            reply,
        ),
        Command::ReadScreen { surface } => reads(
            before,
            surface,
            WorkV::ReadScreen(surface),
            after,
            reply,
        ),
        Command::VtState { surface } => reads(before, surface, WorkV::VtState(surface), after, reply),
        Command::NewTab { pane, cwd, cols, rows } => asks_for(
            before,
            before.tab_request(pane, cwd, both(cols, rows)),
            after,
            reply,
        ),
        Command::NewBrowserTab { url, pane, cols, rows } => asks_for(
            before,
            before.browser_request(url, pane, both(cols, rows)),
            after,
            reply,
        ),
        Command::NewWorkspace { name, cols, rows } => asks_for(
            before,
            Ok(before.workspace_spawn(name, both(cols, rows))),
            after,
            reply,
        ),
        Command::NewScreen { workspace, cols, rows } => asks_for(
            before,
            before.screen_request(workspace, both(cols, rows)),
            after,
            reply,
        ),
        Command::Split { pane, dir, cols, rows } => match named_dir(dir@) {
            Some(named) => asks_for(
                before,
                Ok(before.split_request(pane, named, both(cols, rows))),
                after,
                reply,
            ),
            None => after == before && reply == Err::<ReplyV, CommandError>(
                CommandError::BadDir(dir),
            ),
        },
        Command::SetRatio { pane, dir, ratio } => match named_dir(dir@) {
            Some(named) => does(
                before,
                state.with_ratio(pane, named, ratio.clamped()) is Some,
                CommandError::UnknownSplit(pane),
                before.ratio_set(pane, named, ratio),
                after,
                reply,
            ),
            None => after == before && reply == Err::<ReplyV, CommandError>(
                CommandError::BadDir(dir),
            ),
        },
        Command::MoveTab { surface, pane, index } => does(
            before,
            state.surfaces.contains_key(surface) && state.panes.contains_key(pane) && state.pane_of(
                surface,
            ) is Some,
            CommandError::UnknownSurfaceOrPane,
            before.tab_moved(surface, pane, index as int),
            after,
            reply,
        ),
        Command::MoveWorkspace { workspace, index } => does(
            before,
            state.workspace_index(workspace) is Some,
            CommandError::NoWorkspace,
            before.workspace_moved(workspace, index as int),
            after,
            reply,
        ),
        Command::SetDefaultColors { fg, bg } => match (
            picked(fg, before.default_colors.fg),
            picked(bg, before.default_colors.bg),
        ) {
            (Some(fg), Some(bg)) => before.recolored(DefaultColors { fg, bg }, after) && reply
                == accepted(),
            (None, _) => after == before && refuses_color(reply, fg->0@),
            (_, None) => after == before && refuses_color(reply, bg->0@),
        },
        Command::CloseSurface { surface } => does(
            before,
            state.surfaces.contains_key(surface),
            CommandError::Mux(MuxError::UnknownSurface(surface)),
            before.closed(surface),
            after,
            reply,
        ),
        Command::ClosePane { pane } => does(
            before,
            state.panes.contains_key(pane),
            CommandError::Mux(MuxError::UnknownPane(pane)),
            before.pane_closed(pane),
            after,
            reply,
        ),
        Command::CloseScreen { screen } => does(
            before,
            state.screen_index(screen) is Some,
            CommandError::UnknownScreen(screen),
            before.screen_closed(screen),
            after,
            reply,
        ),
        Command::CloseWorkspace { workspace } => does(
            before,
            state.workspace_index(workspace) is Some,
            CommandError::Mux(MuxError::UnknownWorkspace(workspace)),
            before.workspace_closed(workspace),
            after,
            reply,
        ),
        Command::RenamePane { pane, name } => does(
            before,
            state.panes.contains_key(pane),
            CommandError::Mux(MuxError::UnknownPane(pane)),
            before.pane_renamed(pane, name),
            after,
            reply,
        ),
        Command::RenameSurface { surface, name } => does(
            before,
            state.surfaces.contains_key(surface),
            CommandError::Mux(MuxError::UnknownSurface(surface)),
            before.surface_renamed(surface, name),
            after,
            reply,
        ),
        Command::RenameScreen { screen, name } => does(
            before,
            state.screen_index(screen) is Some,
            CommandError::UnknownScreen(screen),
            before.screen_renamed(screen, name),
            after,
            reply,
        ),
        Command::RenameWorkspace { workspace, name } => does(
            before,
            state.workspace_index(workspace) is Some,
            CommandError::Mux(MuxError::UnknownWorkspace(workspace)),
            before.workspace_renamed(workspace, name@),
            after,
            reply,
        ),
        Command::ResizeSurface { surface, cols, rows } => does(
            before,
            state.surfaces.contains_key(surface),
            CommandError::Mux(MuxError::UnknownSurface(surface)),
            before.resized(surface, cols, rows).0,
            after,
            reply,
        ),
        Command::FocusPane { pane } => if state.panes.contains_key(pane) {
            after == before.pane_focused(pane) && reply == accepted()
        } else {
            after == before.ticked() && reply == Err::<ReplyV, CommandError>(
                CommandError::Mux(MuxError::UnknownPane(pane)),
            )
        },
        Command::SelectTab { pane, index, delta } => after == before.tab_selected(
            pane,
            index,
            delta,
        ) && reply == accepted(),
        Command::SelectScreen { index, delta } => after == before.screen_selected(index, delta)
            && reply == accepted(),
        Command::SelectWorkspace { index, delta } => after == before.workspace_selected(
            index,
            delta,
        ) && reply == accepted(),
        Command::Subscribe => after == before && reply == needs(WorkV::Subscribe),
        Command::AttachSurface { surface } => after == before && reply
            == if !state.surfaces.contains_key(surface) {
            Err::<ReplyV, CommandError>(CommandError::Mux(MuxError::UnknownSurface(surface)))
        } else if state.surfaces[surface].kind == SurfaceKind::Browser {
            Err::<ReplyV, CommandError>(CommandError::BrowserAttach)
        } else {
            needs(WorkV::Attach(surface))
        },
        Command::ScrollSurface { surface, delta } => reads(
            before,
            surface,
            WorkV::Scroll { surface, delta },
            after,
            reply,
        ),
    }
}

/// The request is refused because `value` is no color.
pub open spec fn refuses_color(reply: Result<ReplyV, CommandError>, value: Seq<char>) -> bool {
    &&& reply matches Err(error)
    &&& error is BadColor
    &&& error->BadColor_0@ == value
}

fn zip(cols: Option<u16>, rows: Option<u16>) -> (size: Option<(u16, u16)>)
    ensures
        size == both(cols, rows),
{
    match (cols, rows) {
        (Some(cols), Some(rows)) => Some((cols, rows)),
        _ => None,
    }
}

/// The terminal `id`, or why it cannot be used.
fn get_pty(mux: &Mux, id: SurfaceId) -> (found: Result<(), CommandError>)
    ensures
        match pty_refusal(mux@.state, id) {
            Some(error) => found == Err::<(), CommandError>(error),
            None => found is Ok,
        },
{
    match mux.surface(id) {
        Some(surface) => require_pty(surface),
        None => Err(CommandError::Mux(MuxError::UnknownSurface(id))),
    }
}

fn done() -> (reply: Result<Reply, CommandError>)
    ensures
        reply_value(reply) == accepted(),
{
    Ok(Reply::Done(empty_record()))
}

fn done_if(valid: bool, error: CommandError) -> (reply: Result<Reply, CommandError>)
    ensures
        reply_value(reply) == if valid {
            accepted()
        } else {
            Err::<ReplyV, CommandError>(error)
        },
{
    if valid {
        done()
    } else {
        Err(error)
    }
}

fn perform(work: Work) -> (reply: Result<Reply, CommandError>)
    ensures
        reply_value(reply) == needs(work@),
{
    Ok(Reply::Perform(work))
}

fn spawn_reply(request: Result<mux::Spawn, MuxError>) -> (reply: Result<Reply, CommandError>)
    ensures
        reply_value(reply) == match request {
            Ok(spawn) => needs(WorkV::Spawn(spawn)),
            Err(error) => Err::<ReplyV, CommandError>(CommandError::Mux(error)),
        },
{
    match request {
        Ok(spawn) => perform(Work::Spawn(spawn)),
        Err(error) => Err(CommandError::Mux(error)),
    }
}

/// Does what a request asks for, as far as the session can do it, and says
/// how to answer.
pub fn handle_command(mux: &mut Mux, cmd: Command, host: &Host) -> (reply: Result<
    Reply,
    CommandError,
>)
    requires
        old(mux).wf(),
        old(mux)@.ids_left(1),
    ensures
        final(mux).wf(),
        handles(old(mux)@, cmd, *host, final(mux)@, reply_value(reply)),
{
    match cmd {
        Command::Identify => Ok(Reply::Done(identity_json(mux, host))),
        Command::ListWorkspaces => Ok(Reply::Done(workspaces_json(mux.state(), &host.short_ids))),
        Command::Send { surface, text, bytes } => {
            if let Err(error) = get_pty(mux, surface) {
                return Err(error);
            }
            let bytes = match bytes {
                Some(b64) => Some(decode(b64.as_str())),
                None => None,
            };
            perform(Work::Write { surface, text, bytes })
        },
        Command::ReadScreen { surface } => {
            if let Err(error) = get_pty(mux, surface) {
                return Err(error);
            }
            perform(Work::ReadScreen(surface))
        },
        Command::VtState { surface } => {
            if let Err(error) = get_pty(mux, surface) {
                return Err(error);
            }
            perform(Work::VtState(surface))
        },
        Command::NewTab { pane, cwd, cols, rows } => spawn_reply(
            mux.new_tab(pane, cwd, zip(cols, rows)),
        ),
        Command::NewBrowserTab { url, pane, cols, rows } => spawn_reply(
            mux.new_browser_tab(url, pane, zip(cols, rows)),
        ),
        Command::NewWorkspace { name, cols, rows } => spawn_reply(
            Ok(mux.new_workspace(name, zip(cols, rows))),
        ),
        Command::NewScreen { workspace, cols, rows } => spawn_reply(
            mux.new_screen(workspace, zip(cols, rows)),
        ),
        Command::Split { pane, dir, cols, rows } => match parse_dir(dir) {
            Ok(dir) => spawn_reply(Ok(mux.split(pane, dir, zip(cols, rows)))),
            Err(error) => Err(error),
        },
        Command::SetRatio { pane, dir, ratio } => match parse_dir(dir) {
            Ok(dir) => {
                let found = mux.set_ratio(pane, dir, ratio);
                done_if(found, CommandError::UnknownSplit(pane))
            },
            Err(error) => Err(error),
        },
        Command::MoveTab { surface, pane, index } => {
            let valid = mux.state().surfaces.contains_key(&surface)
                && mux.state().panes.contains_key(&pane) && mux.state().pane_of(surface).is_some();
            if valid {
                mux.move_tab(surface, pane, index);
            }
            done_if(valid, CommandError::UnknownSurfaceOrPane)
        },
        Command::MoveWorkspace { workspace, index } => {
            let valid = mux.state().workspace_index(workspace).is_some();
            if valid {
                mux.move_workspace(workspace, index);
            }
            done_if(valid, CommandError::NoWorkspace)
        },
        Command::SetDefaultColors { fg, bg } => {
            let current = mux.default_colors();
            let fg = match fg {
                Some(value) => match parse_hex_color(value.as_str()) {
                    Ok(color) => Some(color),
                    Err(error) => {
                        return Err(error);
                    },
                },
                None => current.fg,
            };
            let bg = match bg {
                Some(value) => match parse_hex_color(value.as_str()) {
                    Ok(color) => Some(color),
                    Err(error) => {
                        return Err(error);
                    },
                },
                None => current.bg,
            };
            mux.set_default_colors(DefaultColors { fg, bg });
            done()
        },
        Command::CloseSurface { surface } => {
            let valid = mux.surface(surface).is_some();
            if valid {
                mux.close_surface(surface);
            }
            done_if(valid, CommandError::Mux(MuxError::UnknownSurface(surface)))
        },
        Command::ClosePane { pane } => {
            let valid = mux.state().panes.contains_key(&pane);
            if valid {
                mux.close_pane(pane);
            }
            done_if(valid, CommandError::Mux(MuxError::UnknownPane(pane)))
        },
        Command::CloseScreen { screen } => {
            let found = mux.close_screen(screen);
            done_if(found, CommandError::UnknownScreen(screen))
        },
        Command::CloseWorkspace { workspace } => {
            let found = mux.close_workspace(workspace);
            done_if(found, CommandError::Mux(MuxError::UnknownWorkspace(workspace)))
        },
        Command::RenamePane { pane, name } => {
            let found = mux.rename_pane(pane, name);
            done_if(found, CommandError::Mux(MuxError::UnknownPane(pane)))
        },
        Command::RenameSurface { surface, name } => {
            let found = mux.rename_surface(surface, name);
            done_if(found, CommandError::Mux(MuxError::UnknownSurface(surface)))
        },
        Command::RenameScreen { screen, name } => {
            let found = mux.rename_screen(screen, name);
            done_if(found, CommandError::UnknownScreen(screen))
        },
        Command::RenameWorkspace { workspace, name } => {
            let found = mux.rename_workspace(workspace, name);
            done_if(found, CommandError::Mux(MuxError::UnknownWorkspace(workspace)))
        },
        Command::ResizeSurface { surface, cols, rows } => match mux.resize_surface(
            surface,
            cols,
            rows,
        ) {
            Ok(_) => done(),
            Err(error) => Err(CommandError::Mux(error)),
        },
        Command::FocusPane { pane } => {
            let found = mux.focus_pane(pane);
            done_if(found, CommandError::Mux(MuxError::UnknownPane(pane)))
        },
        Command::SelectTab { pane, index, delta } => {
            mux.select_tab(pane, index, delta);
            done()
        },
        Command::SelectScreen { index, delta } => {
            mux.select_screen(index, delta);
            done()
        },
        Command::SelectWorkspace { index, delta } => {
            mux.select_workspace(index, delta);
            done()
        },
        Command::Subscribe => perform(Work::Subscribe),
        Command::AttachSurface { surface } => match mux.surface(surface) {
            Some(found) => match found.kind {
                SurfaceKind::Browser => Err(CommandError::BrowserAttach),
                SurfaceKind::Pty => perform(Work::Attach(surface)),
            },
            None => Err(CommandError::Mux(MuxError::UnknownSurface(surface))),
        },
        Command::ScrollSurface { surface, delta } => {
            if let Err(error) = get_pty(mux, surface) {
                return Err(error);
            }
            perform(Work::Scroll { surface, delta })
        },
    }
}

fn identity_json(mux: &Mux, host: &Host) -> (value: Json)
    ensures
        value@ == identity_value(mux@.session, host.version@, host.pid),
{
    let mut fields = Fields::new();
    fields.put_text("app", "cmux-mux");
    fields.put_text("version", host.version.as_str());
    fields.put_number("protocol", PROTOCOL_VERSION);
    fields.put_text("session", mux.session());
    fields.put_number("pid", host.pid as u64);
    assert(fields@ =~= identity_value(mux@.session, host.version@, host.pid)->Record_0);
    fields.record()
}

/// Every id in the split trees: each workspace, then each of its screens
/// followed by its panes.
pub open spec fn tree_ids(workspaces: Seq<WorkspaceV>) -> Seq<u64>
    decreases workspaces.len(),
{
    if workspaces.len() == 0 {
        seq![]
    } else {
        let ws = workspaces.last();
        tree_ids(workspaces.drop_last()).push(ws.id) + screen_ids(ws.screens)
    }
}

pub open spec fn screen_ids(screens: Seq<Screen>) -> Seq<u64>
    decreases screens.len(),
{
    if screens.len() == 0 {
        seq![]
    } else {
        screen_ids(screens.drop_last()).push(screens.last().id) + screens.last().root.leaves()
    }
}

/// The ids that a listing of the workspaces shows in short form: those of the
/// tree, then the surfaces in some order.
pub fn listed_ids(mux: &Mux) -> (ids: Vec<u64>)
    ensures
        exists|order: Seq<SurfaceId>| #[trigger]
            mux::goes_through(order, mux@.state) && ids@ == tree_ids(mux@.state.workspaces)
                + order,
{
    let state = mux.state();
    let ghost all = mux@.state.workspaces;
    let mut ids: Vec<u64> = Vec::new();
    let mut w: usize = 0;
    assert(all.subrange(0, 0) =~= Seq::<WorkspaceV>::empty());
    while w < state.workspaces.len()
        invariant
            w <= state.workspaces.len(),
            all == state@.workspaces,
            ids@ == tree_ids(all.subrange(0, w as int)),
        decreases state.workspaces.len() - w,
    {
        assert(all.subrange(0, w + 1).drop_last() =~= all.subrange(0, w as int));
        let ghost before = ids@;
        let ws = &state.workspaces[w];
        ids.push(ws.id);
        let ghost base = ids@;
        let mut s: usize = 0;
        assert(ws.screens@.subrange(0, 0) =~= Seq::<Screen>::empty());
        assert(base + Seq::<u64>::empty() =~= base);
        while s < ws.screens.len()
            invariant
                s <= ws.screens.len(),
                ids@ == base + screen_ids(ws.screens@.subrange(0, s as int)),
            decreases ws.screens.len() - s,
        {
            let ghost seen = ws.screens@.subrange(0, s as int);
            let ghost next = ws.screens@.subrange(0, s + 1);
            assert(next.drop_last() =~= seen);
            let screen = &ws.screens[s];
            ids.push(screen.id);
            screen.root.pane_ids(&mut ids);
            assert(ids@ =~= base + screen_ids(next));
            s = s + 1;
        }
        assert(ws.screens@.subrange(0, ws.screens@.len() as int) =~= ws.screens@);
        assert(all[w as int] == ws@);
        w = w + 1;
    }
    assert(all.subrange(0, all.len() as int) =~= all);
    let mut surfaces = mux.surface_ids();
    ids.append(&mut surfaces);
    ids
}

/// The answer to a request that made a surface.
pub fn surface_reply(id: SurfaceId) -> (value: Json)
    ensures
        value@ == JsonV::Record(seq![("surface"@, JsonV::Number(id))]),
{
    let mut fields = Fields::new();
    fields.put_number("surface", id);
    fields.record()
}

/// The answer to a request for what is on the screen.
pub fn screen_reply(text: &str) -> (value: Json)
    ensures
        value@ == JsonV::Record(seq![("text"@, JsonV::Text(text@))]),
{
    let mut fields = Fields::new();
    fields.put_text("text", text);
    fields.record()
}

/// A replay at a size, as it goes over the socket.
pub open spec fn replay_fields(cols: u16, rows: u16, replay: Seq<u8>) -> Seq<(Seq<char>, JsonV)> {
    seq![
        ("cols"@, JsonV::Number(cols as u64)),
        ("rows"@, JsonV::Number(rows as u64)),
        ("data"@, JsonV::Text(encoding::encoded(replay))),
    ]
}

fn put_replay(fields: &mut Fields, cols: u16, rows: u16, replay: &[u8])
    requires
        replay@.len() <= usize::MAX / 4,
    ensures
        final(fields)@ == old(fields)@ + replay_fields(cols, rows, replay@),
        encoding::decodes_to(encoding::encoded(replay@), replay@),
{
    fields.put_number("cols", cols as u64);
    fields.put_number("rows", rows as u64);
    fields.put("data", Json::Text(encode(replay)));
    assert(fields@ =~= old(fields)@ + replay_fields(cols, rows, replay@));
}

/// The answer to a request for a surface's state. What a client decodes is
/// the replay itself.
pub fn vt_state_reply(cols: u16, rows: u16, replay: &[u8]) -> (value: Json)
    requires
        replay@.len() <= usize::MAX / 4,
    ensures
        value@ == JsonV::Record(replay_fields(cols, rows, replay@)),
        encoding::decodes_to(encoding::encoded(replay@), replay@),
{
    let mut fields = Fields::new();
    put_replay(&mut fields, cols, rows, replay);
    assert(fields@ =~= replay_fields(cols, rows, replay@));
    fields.record()
}

pub open spec fn event_fields(name: Seq<char>, surface: SurfaceId) -> Seq<(Seq<char>, JsonV)> {
    seq![("event"@, JsonV::Text(name)), ("surface"@, JsonV::Number(surface))]
}

/// An event, as it goes over the socket.
pub open spec fn event_value(event: MuxEvent) -> JsonV {
    JsonV::Record(
        match event {
            MuxEvent::SurfaceOutput(id) => event_fields("surface-output"@, id),
            MuxEvent::SurfaceResized { surface, cols, rows } => event_fields(
                "surface-resized"@,
                surface,
            ) + seq![
                ("cols"@, JsonV::Number(cols as u64)),
                ("rows"@, JsonV::Number(rows as u64)),
            ],
            MuxEvent::SurfaceExited(id) => event_fields("surface-exited"@, id),
            MuxEvent::TitleChanged(id) => event_fields("title-changed"@, id),
            MuxEvent::Bell(id) => event_fields("bell"@, id),
            MuxEvent::TreeChanged => seq![("event"@, JsonV::Text("tree-changed"@))],
            MuxEvent::Empty => seq![("event"@, JsonV::Text("empty"@))],
        },
    )
}

fn event_start(name: &'static str, surface: SurfaceId) -> (fields: Fields)
    ensures
        fields@ == event_fields(name@, surface),
{
    let mut fields = Fields::new();
    fields.put_text("event", name);
    fields.put_number("surface", surface);
    assert(fields@ =~= event_fields(name@, surface));
    fields
}

pub fn event_json(event: &MuxEvent) -> (value: Json)
    ensures
        value@ == event_value(*event),
{
    match event {
        MuxEvent::SurfaceOutput(id) => event_start("surface-output", *id).record(),
        MuxEvent::SurfaceResized { surface, cols, rows } => {
            let mut fields = event_start("surface-resized", *surface);
            fields.put_number("cols", *cols as u64);
            fields.put_number("rows", *rows as u64);
            assert(fields@ =~= event_value(*event)->Record_0);
            fields.record()
        },
        MuxEvent::SurfaceExited(id) => event_start("surface-exited", *id).record(),
        MuxEvent::TitleChanged(id) => event_start("title-changed", *id).record(),
        MuxEvent::Bell(id) => event_start("bell", *id).record(),
        MuxEvent::TreeChanged => {
            let mut fields = Fields::new();
            fields.put_text("event", "tree-changed");
            assert(fields@ =~= event_value(*event)->Record_0);
            fields.record()
        },
        MuxEvent::Empty => {
            let mut fields = Fields::new();
            fields.put_text("event", "empty");
            assert(fields@ =~= event_value(*event)->Record_0);
            fields.record()
        },
    }
}

/// What an attached surface streams.
#[derive(Debug)]
pub enum AttachFrame {
    Output(Vec<u8>),
    Resized { cols: u16, rows: u16, replay: Vec<u8> },
}

impl AttachFrame {
    /// The bytes that a client plays.
    pub open spec fn bytes(self) -> Seq<u8> {
        match self {
            AttachFrame::Output(chunk) => chunk@,
            AttachFrame::Resized { replay, .. } => replay@,
        }
    }
}

/// The first event of an attached surface: its whole state.
pub fn attach_json(surface: SurfaceId, cols: u16, rows: u16, replay: &[u8]) -> (value: Json)
    requires
        replay@.len() <= usize::MAX / 4,
    ensures
        value@ == JsonV::Record(
            event_fields("vt-state"@, surface) + replay_fields(cols, rows, replay@),
        ),
        encoding::decodes_to(encoding::encoded(replay@), replay@),
{
    let mut fields = event_start("vt-state", surface);
    put_replay(&mut fields, cols, rows, replay);
    fields.record()
}

/// The events that follow. What a client decodes are the bytes themselves.
pub fn frame_json(surface: SurfaceId, frame: &AttachFrame) -> (value: Json)
    requires
        frame.bytes().len() <= usize::MAX / 4,
    ensures
        value@ == JsonV::Record(
            match *frame {
                AttachFrame::Output(chunk) => event_fields("output"@, surface).push(
                    ("data"@, JsonV::Text(encoding::encoded(chunk@))),
                ),
                AttachFrame::Resized { cols, rows, replay } => event_fields("resized"@, surface)
                    + replay_fields(cols, rows, replay@),
            },
        ),
        encoding::decodes_to(encoding::encoded(frame.bytes()), frame.bytes()),
{
    match frame {
        AttachFrame::Output(chunk) => {
            let mut fields = event_start("output", surface);
            fields.put("data", Json::Text(encode(chunk.as_slice())));
            fields.record()
        },
        AttachFrame::Resized { cols, rows, replay } => {
            let mut fields = event_start("resized", surface);
            put_replay(&mut fields, *cols, *rows, replay.as_slice());
            fields.record()
        },
    }
}

/// The last event of an attached surface.
pub fn detached_json(surface: SurfaceId) -> (value: Json)
    ensures
        value@ == JsonV::Record(event_fields("detached"@, surface)),
{
    event_start("detached", surface).record()
}

/// A request that is refused leaves the session as it was and tells nobody.
pub proof fn law_refusals_change_nothing(
    before: MuxV,
    cmd: Command,
    host: Host,
    after: MuxV,
    reply: Result<ReplyV, CommandError>,
)
    requires
        handles(before, cmd, host, after, reply),
        reply is Err,
    ensures
        after.state == before.state,
        after.outbox == before.outbox,
        after.next_id == before.next_id,
{
}

/// The surface that a command for terminals is about.
pub open spec fn terminal_target(cmd: Command) -> Option<SurfaceId> {
    match cmd {
        Command::Send { surface, .. } => Some(surface),
        Command::ReadScreen { surface } => Some(surface),
        Command::VtState { surface } => Some(surface),
        Command::AttachSurface { surface } => Some(surface),
        Command::ScrollSurface { surface, .. } => Some(surface),
        _ => None,
    }
}

/// Commands for terminals are refused for pages.
pub proof fn law_terminal_commands(
    before: MuxV,
    cmd: Command,
    host: Host,
    after: MuxV,
    reply: Result<ReplyV, CommandError>,
)
    requires
        handles(before, cmd, host, after, reply),
        terminal_target(cmd) matches Some(surface) && before.state.surfaces.contains_key(surface)
            && before.state.surfaces[surface].kind == SurfaceKind::Browser,
    ensures
        after == before,
        reply matches Err(error) && (error is NotPty || error is BrowserAttach),
{
}

/// A listing has a short id to show for everything in the tree: for every
/// workspace, every screen and every pane.
pub proof fn law_listed(workspaces: Seq<WorkspaceV>, w: int, s: int, k: int)
    requires
        0 <= w < workspaces.len(),
    ensures
        tree_ids(workspaces).contains(workspaces[w].id),
        0 <= s < workspaces[w].screens.len() ==> {
            let screen = workspaces[w].screens[s];
            &&& tree_ids(workspaces).contains(screen.id)
            &&& 0 <= k < screen.root.leaves().len() ==> tree_ids(workspaces).contains(
                screen.root.leaves()[k],
            )
        },
    decreases workspaces.len(),
{
    let before = tree_ids(workspaces.drop_last());
    let ws = workspaces.last();
    let ids = tree_ids(workspaces);
    let own = screen_ids(ws.screens);
    let n = before.len() as int;
    if w < workspaces.len() - 1 {
        law_listed(workspaces.drop_last(), w, s, k);
        assert(workspaces.drop_last()[w] == workspaces[w]);
        assert forall|id: u64| before.contains(id) implies ids.contains(id) by {
            let i = choose|i: int| 0 <= i < before.len() && before[i] == id;
            assert(ids[i] == id);
        }
    } else {
        assert(ids[n] == ws.id);
        if 0 <= s < ws.screens.len() {
            lemma_listed_screens(ws.screens, s, k);
            assert forall|id: u64| own.contains(id) implies ids.contains(id) by {
                let i = choose|i: int| 0 <= i < own.len() && own[i] == id;
                assert(ids[n + 1 + i] == id);
            }
        }
    }
}

proof fn lemma_listed_screens(screens: Seq<Screen>, s: int, k: int)
    requires
        0 <= s < screens.len(),
    ensures
        screen_ids(screens).contains(screens[s].id),
        0 <= k < screens[s].root.leaves().len() ==> screen_ids(screens).contains(
            screens[s].root.leaves()[k],
        ),
    decreases screens.len(),
{
    let before = screen_ids(screens.drop_last());
    let ids = screen_ids(screens);
    let last = screens.last();
    let n = before.len() as int;
    if s < screens.len() - 1 {
        lemma_listed_screens(screens.drop_last(), s, k);
        assert forall|id: u64| before.contains(id) implies ids.contains(id) by {
            let i = choose|i: int| 0 <= i < before.len() && before[i] == id;
            assert(ids[i] == id);
        }
    } else {
        assert(ids[n] == last.id);
        if 0 <= k < last.root.leaves().len() {
            assert(ids[n + 1 + k] == last.root.leaves()[k]);
        }
    }
}

} // verus!
