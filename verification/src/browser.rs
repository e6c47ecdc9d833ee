//! Browser surfaces: pages of one shared browser connection.

use vstd::prelude::*;

use crate::node::SurfaceId;
use crate::routes;
use crate::routes::RouteTable;
use crate::surface::{BrowserSource, SurfaceOptions};
use crate::text;
use crate::text::{concat, contains, same_text, starts_with, trim};

verus! {

/// The port that is probed for a running browser when none is configured.
pub const DEFAULT_DISCOVER_PORT: u16 = 9222;

/// One frame of a page's screencast.
#[derive(Debug, PartialEq, Eq)]
pub struct BrowserFrame {
    pub session_id: String,
    pub data_b64: String,
    pub css_width: u32,
    pub css_height: u32,
    pub seq: u64,
}

impl Clone for BrowserFrame {
    fn clone(&self) -> (copy: BrowserFrame)
        ensures
            copy == *self,
    {
        BrowserFrame {
            session_id: self.session_id.clone(),
            data_b64: self.data_b64.clone(),
            css_width: self.css_width,
            css_height: self.css_height,
            seq: self.seq,
        }
    }
}

/// What a page says of itself.
#[derive(Debug)]
pub struct TargetInfo {
    pub target_id: String,
    pub title: String,
    pub url: String,
}

/// What the browser reports.
#[derive(Debug)]
pub enum CdpEvent {
    ScreencastFrame(BrowserFrame),
    TargetInfoChanged(TargetInfo),
    Other { method: String, session_id: Option<String> },
    /// The connection is gone.
    Closed(String),
}

/// Why a browser surface could not be made.
#[derive(Debug)]
pub enum BrowserError {
    ConnectionClosed,
    BadBinary(String),
    NoBinary(Option<String>),
    NoProfileDir,
}

impl BrowserError {
    pub open spec fn text(self) -> Seq<char> {
        match self {
            BrowserError::ConnectionClosed => "CDP browser connection is closed"@,
            BrowserError::BadBinary(path) =>
                "configured browser.chrome_binary does not point to an executable file: "@ + path@,
            BrowserError::NoBinary(hint) =>
                "no Chrome/Chromium binary found; set browser.chrome_binary in "@ + match hint {
                    Some(path) => path@,
                    None => "mux.json"@,
                },
            BrowserError::NoProfileDir =>
                "cannot determine Chrome profile directory; set HOME or browser.user_data_dir"@,
        }
    }

    pub fn message(&self) -> (message: String)
        ensures
            message@ == self.text(),
    {
        match self {
            BrowserError::ConnectionClosed => "CDP browser connection is closed".to_owned(),
            BrowserError::BadBinary(path) => concat(
                "configured browser.chrome_binary does not point to an executable file: ",
                path.as_str(),
            ),
            BrowserError::NoBinary(hint) => {
                let path: &str = match hint {
                    Some(path) => path.as_str(),
                    None => "mux.json",
                };
                concat("no Chrome/Chromium binary found; set browser.chrome_binary in ", path)
            },
            BrowserError::NoProfileDir =>
                "cannot determine Chrome profile directory; set HOME or browser.user_data_dir".to_owned(),
        }
    }
}

pub open spec fn ascii_letter(c: char) -> bool {
    'a' <= c <= 'z' || 'A' <= c <= 'Z'
}

pub open spec fn ascii_digit(c: char) -> bool {
    '0' <= c <= '9'
}

/// The character can stand in a scheme after its first one.
pub open spec fn scheme_char(c: char) -> bool {
    ascii_letter(c) || ascii_digit(c) || c == '+' || c == '-' || c == '.'
}

/// A scheme, or what looks like one, ends at the colon in place `i`.
pub open spec fn scheme_to(url: Seq<char>, i: int) -> bool {
    &&& 0 < i < url.len()
    &&& url[i] == ':'
    &&& ascii_letter(url[0])
    &&& forall|j: int| 0 < j < i ==> scheme_char(#[trigger] url[j])
}

/// From `from` to `to` stand the digits of a port, and then the URL or its
/// host ends.
pub open spec fn port_to(url: Seq<char>, from: int, to: int) -> bool {
    &&& from < to <= url.len()
    &&& forall|j: int| from <= j < to ==> ascii_digit(#[trigger] url[j])
    &&& to < url.len() ==> (url[to] == '/' || url[to] == '?' || url[to] == '#')
}

/// A port stands in place `from`.
pub open spec fn port_at(url: Seq<char>, from: int) -> bool {
    exists|to: int| port_to(url, from, to)
}

/// The URL begins with a scheme, and not with a host and its port.
pub open spec fn leading_scheme(url: Seq<char>) -> bool {
    exists|i: int| #[trigger] scheme_to(url, i) && !port_at(url, i + 1)
}

/// The URL names its own scheme. What is listed by name is a scheme even
/// where digits follow.
pub open spec fn has_scheme(url: Seq<char>) -> bool {
    ||| leading_scheme(url)
    ||| text::has_part(url, "://"@)
    ||| text::begins_with(url, "about:"@)
    ||| text::begins_with(url, "file:"@)
    ||| text::begins_with(url, "data:"@)
    ||| text::begins_with(url, "chrome:"@)
    ||| text::begins_with(url, "devtools:"@)
}

/// The URL that an entry stands for: bare domains are reached over HTTPS.
pub open spec fn normalized(input: Seq<char>) -> Seq<char> {
    let url = text::trimmed(input);
    if has_scheme(url) {
        url
    } else {
        "https://"@ + url
    }
}

fn is_ascii_letter(c: char) -> (yes: bool)
    ensures
        yes == ascii_letter(c),
{
    ('a' <= c && c <= 'z') || ('A' <= c && c <= 'Z')
}

fn is_ascii_digit(c: char) -> (yes: bool)
    ensures
        yes == ascii_digit(c),
{
    '0' <= c && c <= '9'
}

fn is_scheme_char(c: char) -> (yes: bool)
    ensures
        yes == scheme_char(c),
{
    is_ascii_letter(c) || is_ascii_digit(c) || c == '+' || c == '-' || c == '.'
}

fn is_port_at(url: &str, from: usize) -> (yes: bool)
    requires
        from <= url@.len(),
    ensures
        yes == port_at(url@, from as int),
{
    let len: usize = url.unicode_len();
    let mut to: usize = from;
    while to < len && is_ascii_digit(url.get_char(to))
        invariant
            from <= to <= len,
            len == url@.len(),
            forall|j: int| from <= j < to ==> ascii_digit(#[trigger] url@[j]),
        decreases len - to,
    {
        to = to + 1;
    }
    let yes = if to == from {
        false
    } else if to == len {
        true
    } else {
        let c: char = url.get_char(to);
        c == '/' || c == '?' || c == '#'
    };
    proof {
        if yes {
            assert(port_to(url@, from as int, to as int));
        } else {
            assert forall|end: int| !port_to(url@, from as int, end) by {
                if port_to(url@, from as int, end) {
                    if end > to {
                        assert(ascii_digit(url@[to as int]));
                    } else if end < to {
                        assert(ascii_digit(url@[end]));
                    }
                }
            }
        }
    }
    yes
}

fn has_leading_scheme(url: &str) -> (yes: bool)
    ensures
        yes == leading_scheme(url@),
{
    let len: usize = url.unicode_len();
    if len == 0 || !is_ascii_letter(url.get_char(0)) {
        return false;
    }
    let mut i: usize = 1;
    while i < len && is_scheme_char(url.get_char(i))
        invariant
            1 <= i <= len,
            len == url@.len(),
            forall|j: int| 0 < j < i ==> scheme_char(#[trigger] url@[j]),
        decreases len - i,
    {
        i = i + 1;
    }
    proof {
        assert forall|k: int| #[trigger] scheme_to(url@, k) implies k == i by {
            if k > i {
                assert(scheme_char(url@[i as int]));
            } else if k < i {
                assert(scheme_char(url@[k]));
            }
        }
    }
    if i == len || url.get_char(i) != ':' {
        return false;
    }
    assert(scheme_to(url@, i as int));
    !is_port_at(url, i + 1)
}

/// Finds the URL that an entry stands for.
pub fn normalize_url(input: &str) -> (url: String)
    ensures
        url@ == normalized(input@),
{
    let url = trim(input);
    let named = contains(url.as_str(), "://") || starts_with(url.as_str(), "about:") || starts_with(
        url.as_str(),
        "file:",
    ) || starts_with(url.as_str(), "data:") || starts_with(url.as_str(), "chrome:") || starts_with(
        url.as_str(),
        "devtools:",
    );
    if named || has_leading_scheme(url.as_str()) {
        url
    } else {
        concat("https://", url.as_str())
    }
}

/// Normalizing a URL again changes nothing.
pub proof fn law_normalize_once(input: Seq<char>)
    ensures
        normalized(normalized(input)) == normalized(input),
{
    let url = text::trimmed(input);
    text::lemma_trimmed(input);
    if has_scheme(url) {
        text::lemma_trimmed_fixed(url);
    } else {
        let full = "https://"@ + url;
        reveal_strlit("https://");
        reveal_strlit("://");
        assert(full.subrange(5, 5int + "://"@.len()) =~= "://"@);
        assert(full[0] == 'h');
        assert(full.last() == if url.len() == 0 { '/' } else { url.last() });
        text::lemma_trimmed_fixed(full);
    }
}

/// At least one.
pub open spec fn at_least_one(n: u16) -> u16 {
    if n == 0 {
        1
    } else {
        n
    }
}

pub fn clamp_one(n: u16) -> (clamped: u16)
    ensures
        clamped == at_least_one(n),
{
    if n == 0 {
        1
    } else {
        n
    }
}

/// The pixels of `cells` cells of `cell` pixels each.
pub open spec fn pixel_span(cells: u16, cell: u16) -> int {
    at_least_one(cells) * at_least_one(cell)
}

fn pixel_size(cells: u16, cell: u16) -> (pixels: u32)
    ensures
        pixels == pixel_span(cells, cell),
{
    let cells: u32 = clamp_one(cells) as u32;
    let cell: u32 = clamp_one(cell) as u32;
    assert(cells * cell <= 0xffff * 0xffff) by (nonlinear_arith)
        requires
            cells <= 0xffff,
            cell <= 0xffff,
    ;
    cells * cell
}

/// How a page is to be made.
#[derive(Debug)]
pub struct PagePlan {
    pub url: String,
    pub size: (u16, u16),
    pub cell_pixels: (u16, u16),
    pub pixels: (u32, u32),
}

/// The shared browser connection.
#[derive(Debug)]
pub struct BrowserRuntime {
    source: BrowserSource,
    closed: bool,
    by_session: RouteTable,
    by_target: RouteTable,
}

/// The mathematical value of a [`BrowserRuntime`].
#[verifier::ext_equal]
pub struct BrowserRuntimeV {
    pub source: BrowserSource,
    pub closed: bool,
    pub by_session: Seq<(Seq<char>, SurfaceId)>,
    pub by_target: Seq<(Seq<char>, SurfaceId)>,
}

impl View for BrowserRuntime {
    type V = BrowserRuntimeV;

    closed spec fn view(&self) -> BrowserRuntimeV {
        BrowserRuntimeV {
            source: self.source,
            closed: self.closed,
            by_session: self.by_session@,
            by_target: self.by_target@,
        }
    }
}

pub open spec fn lone(surface: Option<SurfaceId>) -> Seq<SurfaceId> {
    match surface {
        Some(id) => seq![id],
        None => seq![],
    }
}

impl BrowserRuntimeV {
    /// Each name leads to one surface.
    pub open spec fn wf(self) -> bool {
        &&& routes::routes_wf(self.by_session)
        &&& routes::routes_wf(self.by_target)
    }

    /// The surfaces that an event is for. The end of the connection is for
    /// all of them.
    pub open spec fn recipients(self, event: CdpEvent) -> Seq<SurfaceId> {
        match event {
            CdpEvent::ScreencastFrame(frame) => lone(
                routes::route_to(self.by_session, frame.session_id@),
            ),
            CdpEvent::TargetInfoChanged(info) => lone(
                routes::route_to(self.by_target, info.target_id@),
            ),
            CdpEvent::Other { session_id: Some(session_id), .. } => lone(
                routes::route_to(self.by_session, session_id@),
            ),
            CdpEvent::Other { session_id: None, .. } => seq![],
            CdpEvent::Closed(_) => self.by_session.map_values(
                |e: (Seq<char>, SurfaceId)| e.1,
            ),
        }
    }

    /// The connection after an event.
    pub open spec fn after(self, event: CdpEvent) -> BrowserRuntimeV {
        if event is Closed {
            BrowserRuntimeV { closed: true, by_session: seq![], by_target: seq![], ..self }
        } else {
            self
        }
    }

    pub open spec fn registered(
        self,
        target_id: Seq<char>,
        session_id: Seq<char>,
        surface: SurfaceId,
    ) -> BrowserRuntimeV {
        BrowserRuntimeV {
            by_session: routes::routed(self.by_session, session_id, surface),
            by_target: routes::routed(self.by_target, target_id, surface),
            ..self
        }
    }

    pub open spec fn unregistered(self, target_id: Seq<char>, session_id: Seq<char>) -> BrowserRuntimeV {
        BrowserRuntimeV {
            by_session: routes::unrouted(self.by_session, session_id),
            by_target: routes::unrouted(self.by_target, target_id),
            ..self
        }
    }
}

impl BrowserRuntime {
    pub open spec fn wf(&self) -> bool {
        self@.wf()
    }

    /// A connection that was just made.
    pub fn connect(source: BrowserSource) -> (runtime: BrowserRuntime)
        ensures
            runtime.wf(),
            runtime@ == (BrowserRuntimeV {
                source,
                closed: false,
                by_session: seq![],
                by_target: seq![],
            }),
    {
        BrowserRuntime {
            source,
            closed: false,
            by_session: RouteTable::new(),
            by_target: RouteTable::new(),
        }
    }

    pub fn is_closed(&self) -> (closed: bool)
        ensures
            closed == self@.closed,
    {
        self.closed
    }

    pub fn source(&self) -> (source: BrowserSource)
        ensures
            source == self@.source,
    {
        self.source
    }

    /// How a page for `url` is to be made, unless the connection is closed.
    pub fn spawn_surface(&self, url: &str, size: (u16, u16), cell_pixels: (u16, u16)) -> (plan:
        Result<PagePlan, BrowserError>)
        ensures
            plan is Ok <==> !self@.closed,
            plan is Err ==> plan->Err_0 is ConnectionClosed,
            plan matches Ok(plan) ==> {
                &&& plan.url@ == normalized(url@)
                &&& plan.size == (at_least_one(size.0), at_least_one(size.1))
                &&& plan.cell_pixels == (at_least_one(cell_pixels.0), at_least_one(cell_pixels.1))
                &&& plan.pixels.0 == pixel_span(size.0, cell_pixels.0)
                &&& plan.pixels.1 == pixel_span(size.1, cell_pixels.1)
            },
    {
        if self.closed {
            return Err(BrowserError::ConnectionClosed);
        }
        Ok(
            PagePlan {
                url: normalize_url(url),
                size: (clamp_one(size.0), clamp_one(size.1)),
                cell_pixels: (clamp_one(cell_pixels.0), clamp_one(cell_pixels.1)),
                pixels: (pixel_size(size.0, cell_pixels.0), pixel_size(size.1, cell_pixels.1)),
            },
        )
    }

    /// Sends the events of a page to `surface`.
    pub fn register(&mut self, target_id: &str, session_id: &str, surface: SurfaceId)
        requires
            old(self).wf(),
        ensures
            final(self).wf(),
            final(self)@ == old(self)@.registered(target_id@, session_id@, surface),
    {
        self.by_session.insert(session_id.to_owned(), surface);
        self.by_target.insert(target_id.to_owned(), surface);
    }

    pub fn unregister(&mut self, target_id: &str, session_id: &str)
        requires
            old(self).wf(),
        ensures
            final(self).wf(),
            final(self)@ == old(self)@.unregistered(target_id@, session_id@),
    {
        self.by_session.remove(session_id);
        self.by_target.remove(target_id);
    }

    /// Forgets a page. Says whether the browser still has to close it.
    pub fn close_surface(&mut self, target_id: &str, session_id: &str) -> (close: bool)
        requires
            old(self).wf(),
        ensures
            final(self).wf(),
            final(self)@ == old(self)@.unregistered(target_id@, session_id@),
            close == !old(self)@.closed,
    {
        self.unregister(target_id, session_id);
        !self.closed
    }

    /// Takes note of an event, and says which surfaces it is for.
    pub fn route(&mut self, event: &CdpEvent) -> (surfaces: Vec<SurfaceId>)
        requires
            old(self).wf(),
        ensures
            final(self).wf(),
            surfaces@ == old(self)@.recipients(*event),
            final(self)@ == old(self)@.after(*event),
    {
        let to: Option<SurfaceId> = match event {
            CdpEvent::ScreencastFrame(frame) => self.by_session.get(frame.session_id.as_str()),
            CdpEvent::TargetInfoChanged(info) => self.by_target.get(info.target_id.as_str()),
            CdpEvent::Other { session_id: Some(session_id), .. } => self.by_session.get(
                session_id.as_str(),
            ),
            CdpEvent::Other { session_id: None, .. } => None,
            CdpEvent::Closed(_) => {
                self.closed = true;
                let surfaces = self.by_session.drain();
                self.by_target.drain();
                return surfaces;
            },
        };
        let mut surfaces: Vec<SurfaceId> = Vec::new();
        if let Some(id) = to {
            surfaces.push(id);
        }
        assert(surfaces@ =~= lone(to));
        surfaces
    }

    /// Closes the connection. Says whether the browser has to be stopped:
    /// only one that was launched for the session is.
    pub fn shutdown(&mut self) -> (kill: bool)
        requires
            old(self).wf(),
        ensures
            final(self).wf(),
            final(self)@ == (BrowserRuntimeV { closed: true, ..old(self)@ }),
            kill == (old(self)@.source == BrowserSource::Launched),
    {
        self.closed = true;
        match self.source {
            BrowserSource::Launched => true,
            BrowserSource::External => false,
        }
    }
}

/// What follows from an event for a browser surface.
#[derive(Debug, Clone, Copy, PartialEq, Eq, Structural)]
pub enum Reaction {
    Quiet,
    /// There is a frame to draw.
    Output,
    TitleChanged,
    /// The page is gone.
    Exited,
}

/// A page in a tab.
#[derive(Debug)]
pub struct BrowserSurface {
    pub id: SurfaceId,
    pub source: BrowserSource,
    pub target_id: String,
    pub session_id: String,
    pub latest_frame: Option<BrowserFrame>,
    pub dirty: bool,
    pub dead: bool,
    pub title: String,
    pub url: String,
    pub size: (u16, u16),
    pub cell_pixels: (u16, u16),
    pub pixels: (u32, u32),
}

impl BrowserSurface {
    /// The title that a page goes by: its URL when it has none.
    pub open spec fn shown_title(info: TargetInfo) -> String {
        if info.title@.len() == 0 {
            info.url
        } else {
            info.title
        }
    }

    /// The surface after an event.
    pub open spec fn after(self, event: CdpEvent) -> BrowserSurface {
        match event {
            CdpEvent::ScreencastFrame(frame) => BrowserSurface {
                latest_frame: Some(frame),
                dirty: true,
                ..self
            },
            CdpEvent::TargetInfoChanged(info) => {
                let title = Self::shown_title(info);
                BrowserSurface {
                    url: if info.url@.len() == 0 {
                        self.url
                    } else {
                        info.url
                    },
                    title: if self.title@ == title@ {
                        self.title
                    } else {
                        title
                    },
                    ..self
                }
            },
            CdpEvent::Other { .. } => self,
            CdpEvent::Closed(_) => BrowserSurface { dead: true, ..self },
        }
    }

    /// What follows from an event.
    pub open spec fn reaction(self, event: CdpEvent) -> Reaction {
        match event {
            CdpEvent::ScreencastFrame(_) => if self.dirty {
                Reaction::Quiet
            } else {
                Reaction::Output
            },
            CdpEvent::TargetInfoChanged(info) => if self.title@ == Self::shown_title(info)@ {
                Reaction::Quiet
            } else {
                Reaction::TitleChanged
            },
            CdpEvent::Other { .. } => Reaction::Quiet,
            CdpEvent::Closed(_) => Reaction::Exited,
        }
    }

    /// The surface at another size in cells.
    pub open spec fn resized(self, cols: u16, rows: u16) -> BrowserSurface {
        BrowserSurface {
            size: (at_least_one(cols), at_least_one(rows)),
            pixels: (
                pixel_span(cols, self.cell_pixels.0) as u32,
                pixel_span(rows, self.cell_pixels.1) as u32,
            ),
            ..self
        }
    }

    /// A surface for a page that was just made.
    pub fn new(
        id: SurfaceId,
        source: BrowserSource,
        target_id: String,
        session_id: String,
        plan: PagePlan,
    ) -> (surface: BrowserSurface)
        ensures
            surface == (BrowserSurface {
                id,
                source,
                target_id,
                session_id,
                latest_frame: None,
                dirty: true,
                dead: false,
                title: plan.url,
                url: plan.url,
                size: plan.size,
                cell_pixels: plan.cell_pixels,
                pixels: plan.pixels,
            }),
    {
        BrowserSurface {
            id,
            source,
            target_id,
            session_id,
            latest_frame: None,
            dirty: true,
            dead: false,
            title: plan.url.clone(),
            url: plan.url,
            size: plan.size,
            cell_pixels: plan.cell_pixels,
            pixels: plan.pixels,
        }
    }

    /// Takes note of an event.
    pub fn handle(&mut self, event: CdpEvent) -> (reaction: Reaction)
        ensures
            *final(self) == old(self).after(event),
            reaction == old(self).reaction(event),
    {
        match event {
            CdpEvent::ScreencastFrame(frame) => {
                self.latest_frame = Some(frame);
                let quiet = self.dirty;
                self.dirty = true;
                if quiet {
                    Reaction::Quiet
                } else {
                    Reaction::Output
                }
            },
            CdpEvent::TargetInfoChanged(info) => {
                let title = if info.title.as_str().is_empty() {
                    info.url.clone()
                } else {
                    info.title
                };
                if !info.url.as_str().is_empty() {
                    self.url = info.url;
                }
                if same_text(self.title.as_str(), title.as_str()) {
                    Reaction::Quiet
                } else {
                    self.title = title;
                    Reaction::TitleChanged
                }
            },
            CdpEvent::Other { .. } => Reaction::Quiet,
            CdpEvent::Closed(_) => {
                self.dead = true;
                Reaction::Exited
            },
        }
    }

    pub fn latest_frame(&self) -> (frame: Option<BrowserFrame>)
        ensures
            frame == self.latest_frame,
    {
        match &self.latest_frame {
            Some(frame) => Some(frame.clone()),
            None => None,
        }
    }

    pub fn title(&self) -> (title: String)
        ensures
            title == self.title,
    {
        self.title.clone()
    }

    pub fn url(&self) -> (url: String)
        ensures
            url == self.url,
    {
        self.url.clone()
    }

    pub fn source(&self) -> (source: BrowserSource)
        ensures
            source == self.source,
    {
        self.source
    }

    pub fn size(&self) -> (size: (u16, u16))
        ensures
            size == self.size,
    {
        self.size
    }

    pub fn is_dead(&self) -> (dead: bool)
        ensures
            dead == self.dead,
    {
        self.dead
    }

    /// Says whether there was something to draw, and forgets it.
    pub fn take_dirty(&mut self) -> (dirty: bool)
        ensures
            dirty == old(self).dirty,
            *final(self) == (BrowserSurface { dirty: false, ..*old(self) }),
    {
        let dirty = self.dirty;
        self.dirty = false;
        dirty
    }

    /// Ends the surface. Says whether its page has to be closed, which is
    /// so only the first time.
    pub fn kill(&mut self) -> (close: bool)
        ensures
            close == !old(self).dead,
            *final(self) == (BrowserSurface { dead: true, ..*old(self) }),
    {
        let close = !self.dead;
        self.dead = true;
        close
    }

    /// Sets the size in cells. The first result says whether the cells
    /// changed; the second is the size in pixels that the page has to be
    /// given, if that or the cells changed.
    pub fn resize(&mut self, cols: u16, rows: u16) -> (outcome: (bool, Option<(u32, u32)>))
        ensures
            *final(self) == old(self).resized(cols, rows),
            outcome.0 == (old(self).size != old(self).resized(cols, rows).size),
            outcome.1 == if *old(self) == old(self).resized(cols, rows) {
                None
            } else {
                Some(old(self).resized(cols, rows).pixels)
            },
    {
        let cols: u16 = clamp_one(cols);
        let rows: u16 = clamp_one(rows);
        let changed = self.size.0 != cols || self.size.1 != rows;
        let pixel_w: u32 = pixel_size(cols, self.cell_pixels.0);
        let pixel_h: u32 = pixel_size(rows, self.cell_pixels.1);
        let moved = changed || self.pixels.0 != pixel_w || self.pixels.1 != pixel_h;
        self.size = (cols, rows);
        self.pixels = (pixel_w, pixel_h);
        if moved {
            (changed, Some((pixel_w, pixel_h)))
        } else {
            (changed, None)
        }
    }

    /// Sets the size of a cell. The result is the size in pixels that the
    /// page has to be given, if it changed.
    pub fn set_cell_pixel_size(&mut self, width_px: u16, height_px: u16) -> (pixels: Option<
        (u32, u32),
    >)
        ensures
            ({
                let cell = (at_least_one(width_px), at_least_one(height_px));
                let next = BrowserSurface { cell_pixels: cell, ..*old(self) }.resized(
                    old(self).size.0,
                    old(self).size.1,
                );
                if old(self).cell_pixels == cell {
                    *final(self) == *old(self) && pixels is None
                } else {
                    *final(self) == next && pixels == if next.size == old(self).size && next.pixels
                        == old(self).pixels {
                        None::<(u32, u32)>
                    } else {
                        Some(next.pixels)
                    }
                }
            }),
    {
        let width: u16 = clamp_one(width_px);
        let height: u16 = clamp_one(height_px);
        if self.cell_pixels.0 == width && self.cell_pixels.1 == height {
            return None;
        }
        self.cell_pixels = (width, height);
        let (cols, rows) = self.size;
        self.resize(cols, rows).1
    }

    /// Takes note that the page was sent to the URL that an entry stands for.
    /// It goes by that URL until it reports a title.
    pub fn navigated(&mut self, entry: &str)
        ensures
            final(self).url@ == normalized(entry@),
            final(self).title@ == normalized(entry@),
            *final(self) == (BrowserSurface {
                url: final(self).url,
                title: final(self).title,
                ..*old(self)
            }),
    {
        let url = normalize_url(entry);
        self.title = url.clone();
        self.url = url;
    }
}

/// The entry holds more than white space.
pub open spec fn filled(entry: Option<&str>) -> bool {
    match entry {
        Some(text) => text::trimmed(text@).len() > 0,
        None => false,
    }
}

fn is_filled(entry: Option<&str>) -> (yes: bool)
    ensures
        yes == filled(entry),
{
    match entry {
        Some(text) => !trim(text).as_str().is_empty(),
        None => false,
    }
}

/// The next step towards a browser connection.
#[derive(Debug)]
pub enum EndpointStep {
    /// Ask this address for its browser.
    Resolve(String),
    /// Look for a running browser behind these ports.
    Discover(Vec<u16>),
    /// Connect to a running browser here.
    Connect(String),
    /// Start a browser, with a profile that is thrown away or one that stays.
    Launch { ephemeral: bool },
}

impl EndpointStep {
    /// Where the browser comes from that this step leads to: a process is
    /// started for the session by a launch, and by nothing else.
    pub fn source(&self) -> (source: BrowserSource)
        ensures
            (source is Launched) == (*self is Launch),
            (source is External) == !(*self is Launch),
    {
        match self {
            EndpointStep::Launch { .. } => BrowserSource::Launched,
            _ => BrowserSource::External,
        }
    }
}

/// The ports to probe.
pub open spec fn discover_ports(opts: SurfaceOptions) -> Seq<u16> {
    if opts.browser_discover_ports@.len() == 0 {
        seq![DEFAULT_DISCOVER_PORT]
    } else {
        opts.browser_discover_ports@
    }
}

/// Finds the browser to use: the one that the environment names, then the one
/// that is configured, then a running one, and at last one to be launched.
/// `probe` is what looking for a running browser gave, once that was done.
pub fn runtime_endpoint(
    env_url: Option<&str>,
    opts: &SurfaceOptions,
    probe: Option<Option<String>>,
) -> (step: EndpointStep)
    ensures
        match step {
            EndpointStep::Resolve(url) => if filled(env_url) {
                url@ == env_url->0@
            } else {
                &&& opts.cdp_url matches Some(configured)
                &&& text::trimmed(configured@).len() > 0
                &&& url@ == configured@
            },
            EndpointStep::Discover(ports) => opts.browser_discover && probe is None && ports@
                == discover_ports(*opts),
            EndpointStep::Connect(url) => opts.browser_discover && probe == Some(Some(url)),
            EndpointStep::Launch { ephemeral } => ephemeral == opts.browser_ephemeral && (
            opts.browser_discover ==> probe == Some(None::<String>)),
        },
        step is Resolve <==> filled(env_url) || (opts.cdp_url is Some && text::trimmed(
            opts.cdp_url->0@,
        ).len() > 0),
{
    if is_filled(env_url) {
        if let Some(url) = env_url {
            return EndpointStep::Resolve(url.to_owned());
        }
    }
    if let Some(url) = &opts.cdp_url {
        if is_filled(Some(url.as_str())) {
            return EndpointStep::Resolve(url.clone());
        }
    }
    if opts.browser_discover {
        match probe {
            None => {
                let mut ports: Vec<u16> = Vec::new();
                if opts.browser_discover_ports.is_empty() {
                    ports.push(DEFAULT_DISCOVER_PORT);
                } else {
                    ports.extend_from_slice(opts.browser_discover_ports.as_slice());
                }
                assert(ports@ =~= discover_ports(*opts));
                return EndpointStep::Discover(ports);
            },
            Some(Some(url)) => {
                return EndpointStep::Connect(url);
            },
            Some(None) => {},
        }
    }
    EndpointStep::Launch { ephemeral: opts.browser_ephemeral }
}

/// The place of the first candidate that can be run.
pub open spec fn first_executable(candidates: Seq<(String, bool)>) -> Option<int>
    decreases candidates.len(),
{
    if candidates.len() == 0 {
        None
    } else {
        match first_executable(candidates.drop_last()) {
            Some(i) => Some(i),
            None => if candidates.last().1 {
                Some(candidates.len() - 1)
            } else {
                None
            },
        }
    }
}

/// The browser binary: the configured one, which must be executable, or the
/// first candidate that is. `explicit_ok` and the flags in `candidates` say
/// which files are executable; `config_path` is named when there is none.
pub fn resolve_chrome_binary(
    explicit: Option<&str>,
    explicit_ok: bool,
    candidates: &Vec<(String, bool)>,
    config_path: Option<String>,
) -> (binary: Result<String, BrowserError>)
    ensures
        if filled(explicit) {
            match binary {
                Ok(path) => explicit_ok && path@ == explicit->0@,
                Err(error) => !explicit_ok && error is BadBinary && error->BadBinary_0@
                    == explicit->0@,
            }
        } else {
            match first_executable(candidates@) {
                Some(i) => binary is Ok && binary->Ok_0@ == candidates@[i].0@,
                None => binary == Err::<String, BrowserError>(BrowserError::NoBinary(config_path)),
            }
        },
{
    if is_filled(explicit) {
        if let Some(path) = explicit {
            let path = path.to_owned();
            if explicit_ok {
                return Ok(path);
            }
            return Err(BrowserError::BadBinary(path));
        }
    }
    let mut i: usize = 0;
    let ghost all = candidates@;
    assert(all.subrange(0, 0) =~= Seq::<(String, bool)>::empty());
    while i < candidates.len()
        invariant
            i <= candidates.len(),
            all == candidates@,
            first_executable(all.subrange(0, i as int)) is None,
            !filled(explicit),
        decreases candidates.len() - i,
    {
        assert(all.subrange(0, i + 1).drop_last() =~= all.subrange(0, i as int));
        if candidates[i].1 {
            proof {
                lemma_first_executable(all, i as int);
            }
            return Ok(candidates[i].0.clone());
        }
        i = i + 1;
    }
    assert(all.subrange(0, all.len() as int) =~= all);
    Err(BrowserError::NoBinary(config_path))
}

proof fn lemma_first_executable(candidates: Seq<(String, bool)>, i: int)
    requires
        0 <= i < candidates.len(),
        candidates[i].1,
        first_executable(candidates.subrange(0, i)) is None,
    ensures
        first_executable(candidates) == Some(i),
    decreases candidates.len(),
{
    let before = candidates.drop_last();
    if i == candidates.len() - 1 {
        assert(before =~= candidates.subrange(0, i));
    } else {
        assert(before.subrange(0, i) =~= candidates.subrange(0, i));
        lemma_first_executable(before, i);
    }
}

/// `dir` is the profile directory that is configured, or else the platform's.
pub open spec fn finds_profile(
    explicit: Option<&str>,
    platform_dir: Option<String>,
    dir: Result<String, BrowserError>,
) -> bool {
    match dir {
        Ok(dir) => if filled(explicit) {
            dir@ == explicit->0@
        } else {
            platform_dir == Some(dir)
        },
        Err(error) => error is NoProfileDir && !filled(explicit) && platform_dir is None,
    }
}

/// The profile directory of a launched browser: the configured one, or the
/// platform's.
pub fn resolve_chrome_user_data_dir(explicit: Option<&str>, platform_dir: Option<String>) -> (dir:
    Result<String, BrowserError>)
    ensures
        finds_profile(explicit, platform_dir, dir),
{
    if is_filled(explicit) {
        if let Some(path) = explicit {
            return Ok(path.to_owned());
        }
    }
    match platform_dir {
        Some(dir) => Ok(dir),
        None => Err(BrowserError::NoProfileDir),
    }
}

/// The profile directory to launch a browser with. A profile that is thrown
/// away has none, whatever is configured.
pub fn launch_profile(
    ephemeral: bool,
    explicit: Option<&str>,
    platform_dir: Option<String>,
) -> (profile: Result<Option<String>, BrowserError>)
    ensures
        ephemeral ==> profile == Ok::<Option<String>, BrowserError>(None),
        !ephemeral ==> match profile {
            Ok(Some(dir)) => finds_profile(explicit, platform_dir, Ok(dir)),
            Ok(None) => false,
            Err(error) => finds_profile(explicit, platform_dir, Err(error)),
        },
{
    if ephemeral {
        return Ok(None);
    }
    match resolve_chrome_user_data_dir(explicit, platform_dir) {
        Ok(dir) => Ok(Some(dir)),
        Err(error) => Err(error),
    }
}

/// Pages do not get in each other's way: a page that is registered gets the
/// events that name it, until it is closed, and what other pages get does not
/// depend on it.
pub proof fn law_pages_apart(
    runtime: BrowserRuntimeV,
    target_id: Seq<char>,
    session_id: Seq<char>,
    surface: SurfaceId,
    frame: BrowserFrame,
    info: TargetInfo,
)
    requires
        runtime.wf(),
    ensures
        ({
            let with = runtime.registered(target_id, session_id, surface);
            let without = with.unregistered(target_id, session_id);
            let drawn = CdpEvent::ScreencastFrame(frame);
            let told = CdpEvent::TargetInfoChanged(info);
            &&& with.recipients(drawn) == if frame.session_id@ == session_id {
                seq![surface]
            } else {
                runtime.recipients(drawn)
            }
            &&& with.recipients(told) == if info.target_id@ == target_id {
                seq![surface]
            } else {
                runtime.recipients(told)
            }
            &&& without.recipients(drawn) == if frame.session_id@ == session_id {
                seq![]
            } else {
                runtime.recipients(drawn)
            }
            &&& without.recipients(told) == if info.target_id@ == target_id {
                seq![]
            } else {
                runtime.recipients(told)
            }
            &&& with.wf()
            &&& without.wf()
        }),
{
    let with = runtime.registered(target_id, session_id, surface);
    let s = if frame.session_id@ == session_id {
        session_id.push('.')
    } else {
        frame.session_id@
    };
    let t = if info.target_id@ == target_id {
        target_id.push('.')
    } else {
        info.target_id@
    };
    assert(session_id.push('.').len() != session_id.len());
    assert(target_id.push('.').len() != target_id.len());
    routes::law_routes(runtime.by_session, session_id, surface, s);
    routes::law_routes(runtime.by_target, target_id, surface, t);
    routes::law_routes(with.by_session, session_id, surface, s);
    routes::law_routes(with.by_target, target_id, surface, t);
}

/// When the connection ends, every page is told, and no event goes anywhere
/// afterwards.
pub proof fn law_connection_ends(runtime: BrowserRuntimeV, reason: String, later: CdpEvent)
    ensures
        ({
            let end = CdpEvent::Closed(reason);
            &&& forall|i: int|
                0 <= i < runtime.by_session.len() ==> runtime.recipients(end).contains(
                    (#[trigger] runtime.by_session[i]).1,
                )
            &&& runtime.after(end).closed
            &&& runtime.after(end).recipients(later) == Seq::<SurfaceId>::empty()
        }),
{
    let end = CdpEvent::Closed(reason);
    assert forall|i: int| 0 <= i < runtime.by_session.len() implies runtime.recipients(
        end,
    ).contains((#[trigger] runtime.by_session[i]).1) by {
        assert(runtime.recipients(end)[i] == runtime.by_session[i].1);
    }
    assert(runtime.after(end).recipients(later) =~= Seq::<SurfaceId>::empty());
}

/// An entry without a colon is a bare domain: it is reached over HTTPS. An
/// entry that begins with a word, a colon and anything but a digit names its
/// scheme, and stands for itself.
pub proof fn law_bare_domains(input: Seq<char>, i: int)
    ensures
        ({
            let url = text::trimmed(input);
            let full = "https://"@ + url;
            &&& (forall|j: int| 0 <= j < url.len() ==> #[trigger] url[j] != ':') ==> normalized(
                input,
            ) == full
            &&& (0 < i < url.len() - 1 && url[i] == ':' && ascii_letter(url[0]) && (forall|j: int|
                0 < j < i ==> scheme_char(#[trigger] url[j])) && !ascii_digit(url[i + 1]))
                ==> normalized(input) == url
            &&& normalized(input) == url || normalized(input) == full
        }),
{
    let url = text::trimmed(input);
    reveal_strlit("://");
    reveal_strlit("about:");
    reveal_strlit("file:");
    reveal_strlit("data:");
    reveal_strlit("chrome:");
    reveal_strlit("devtools:");
    if forall|j: int| 0 <= j < url.len() ==> #[trigger] url[j] != ':' {
        if text::has_part(url, "://"@) {
            let k = choose|k: int|
                0 <= k <= url.len() - "://"@.len() && #[trigger] url.subrange(k, k + "://"@.len())
                    == "://"@;
            assert("://"@[0] == ':');
            assert(url.subrange(k, k + "://"@.len())[0] == url[k]);
        }
        lemma_no_prefix(url, "about:"@, 5);
        lemma_no_prefix(url, "file:"@, 4);
        lemma_no_prefix(url, "data:"@, 4);
        lemma_no_prefix(url, "chrome:"@, 6);
        lemma_no_prefix(url, "devtools:"@, 8);
    }
    if 0 < i < url.len() - 1 && url[i] == ':' && ascii_letter(url[0]) && (forall|j: int|
        0 < j < i ==> scheme_char(#[trigger] url[j])) && !ascii_digit(url[i + 1]) {
        assert(scheme_to(url, i));
        let from = i + 1;
        assert forall|to: int| !(#[trigger] port_to(url, from, to)) by {}
    }
}

proof fn lemma_no_prefix(url: Seq<char>, prefix: Seq<char>, k: int)
    requires
        0 <= k < prefix.len(),
        prefix[k] == ':',
        forall|j: int| 0 <= j < url.len() ==> #[trigger] url[j] != ':',
    ensures
        !text::begins_with(url, prefix),
{
    if text::begins_with(url, prefix) {
        assert(url.subrange(0, prefix.len() as int)[k] == url[k]);
    }
}

/// A host and its port are reached over HTTPS, unless the host has the name
/// of a scheme.
pub proof fn law_host_and_port(input: Seq<char>, i: int)
    requires
        0 < i < text::trimmed(input).len() - 1,
        text::trimmed(input)[i] == ':',
        forall|j: int|
            0 <= j < i ==> #[trigger] text::trimmed(input)[j] != ':',
        forall|j: int|
            i < j < text::trimmed(input).len() ==> ascii_digit(#[trigger] text::trimmed(input)[j]),
        text::trimmed(input).subrange(0, i) != "about"@,
        text::trimmed(input).subrange(0, i) != "file"@,
        text::trimmed(input).subrange(0, i) != "data"@,
        text::trimmed(input).subrange(0, i) != "chrome"@,
        text::trimmed(input).subrange(0, i) != "devtools"@,
    ensures
        normalized(input) == "https://"@ + text::trimmed(input),
{
    let url = text::trimmed(input);
    reveal_strlit("://");
    reveal_strlit("about:");
    reveal_strlit("file:");
    reveal_strlit("data:");
    reveal_strlit("chrome:");
    reveal_strlit("devtools:");
    reveal_strlit("about");
    reveal_strlit("file");
    reveal_strlit("data");
    reveal_strlit("chrome");
    reveal_strlit("devtools");
    lemma_other_host(url, "about"@, "about:"@, i);
    lemma_other_host(url, "file"@, "file:"@, i);
    lemma_other_host(url, "data"@, "data:"@, i);
    lemma_other_host(url, "chrome"@, "chrome:"@, i);
    lemma_other_host(url, "devtools"@, "devtools:"@, i);
    if text::has_part(url, "://"@) {
        let k = choose|k: int|
            0 <= k <= url.len() - "://"@.len() && #[trigger] url.subrange(k, k + "://"@.len())
                == "://"@;
        let part = url.subrange(k, k + "://"@.len());
        assert(part[0] == ':' && part[0] == url[k]);
        assert(part[1] == '/' && part[1] == url[k + 1]);
    }
    if leading_scheme(url) {
        let k = choose|k: int| #[trigger] scheme_to(url, k) && !port_at(url, k + 1);
        assert(k == i);
        assert(port_to(url, k + 1, url.len() as int));
    }
}

proof fn lemma_other_host(url: Seq<char>, name: Seq<char>, prefix: Seq<char>, i: int)
    requires
        0 < i < url.len(),
        url[i] == ':',
        forall|j: int| 0 <= j < i ==> #[trigger] url[j] != ':',
        forall|j: int| i < j < url.len() ==> #[trigger] url[j] != ':',
        prefix =~= name.push(':'),
        url.subrange(0, i) != name,
    ensures
        !text::begins_with(url, prefix),
{
    if text::begins_with(url, prefix) {
        let n = name.len() as int;
        let head = url.subrange(0, prefix.len() as int);
        assert(head[n] == url[n]);
        assert(n == i);
        assert forall|j: int| 0 <= j < n implies url.subrange(0, i)[j] == name[j] by {
            assert(head[j] == url[j]);
        }
        assert(url.subrange(0, i) =~= name);
    }
}

/// A page fills its cells: as many pixels as its columns and rows have. No
/// side is without a cell.
pub proof fn law_page_size(page: BrowserSurface, cols: u16, rows: u16)
    requires
        page.cell_pixels.0 > 0,
        page.cell_pixels.1 > 0,
    ensures
        ({
            let after = page.resized(cols, rows);
            &&& cols > 0 ==> after.size.0 == cols
            &&& cols == 0 ==> after.size.0 == 1
            &&& rows > 0 ==> after.size.1 == rows
            &&& rows == 0 ==> after.size.1 == 1
            &&& after.pixels.0 == after.size.0 * page.cell_pixels.0
            &&& after.pixels.1 == after.size.1 * page.cell_pixels.1
            &&& after.cell_pixels == page.cell_pixels
            &&& after.url == page.url
            &&& after.title == page.title
            &&& after.latest_frame == page.latest_frame
        }),
{
    let c = at_least_one(cols) as int;
    let r = at_least_one(rows) as int;
    let w = page.cell_pixels.0 as int;
    let h = page.cell_pixels.1 as int;
    assert(0 <= c * w <= 0xffff * 0xffff && 0 <= r * h <= 0xffff * 0xffff) by (nonlinear_arith)
        requires
            0 <= c <= 0xffff,
            0 <= w <= 0xffff,
            0 <= r <= 0xffff,
            0 <= h <= 0xffff,
    ;
}

/// The last frame of a page is the one to draw, and frames are announced once
/// until they are drawn. A page is told apart by its title, or by its URL
/// when it has none, and a change of that is announced. The end of a page is
/// announced and is final.
pub proof fn law_page_events(
    page: BrowserSurface,
    frame: BrowserFrame,
    info: TargetInfo,
    reason: String,
)
    ensures
        ({
            let drawn = page.after(CdpEvent::ScreencastFrame(frame));
            &&& drawn.latest_frame == Some(frame)
            &&& drawn.dirty
            &&& drawn.title == page.title
            &&& drawn.url == page.url
            &&& drawn.dead == page.dead
            &&& !page.dirty ==> page.reaction(CdpEvent::ScreencastFrame(frame)) is Output
            &&& page.dirty ==> page.reaction(CdpEvent::ScreencastFrame(frame)) is Quiet
        }),
        ({
            let event = CdpEvent::TargetInfoChanged(info);
            let told = page.after(event);
            &&& info.title@.len() > 0 ==> told.title@ == info.title@
            &&& info.title@.len() == 0 ==> told.title@ == info.url@
            &&& info.url@.len() > 0 ==> told.url@ == info.url@
            &&& info.url@.len() == 0 ==> told.url@ == page.url@
            &&& told.title@ != page.title@ <==> page.reaction(event) is TitleChanged
            &&& told.title@ == page.title@ <==> page.reaction(event) is Quiet
            &&& told.latest_frame == page.latest_frame
            &&& told.dirty == page.dirty
            &&& told.dead == page.dead
        }),
        page.after(CdpEvent::Closed(reason)).dead,
        page.reaction(CdpEvent::Closed(reason)) is Exited,
{
}

/// The candidate that is taken is executable, and none before it is. There is
/// none only where no candidate is executable.
pub proof fn law_first_executable(candidates: Seq<(String, bool)>)
    ensures
        match first_executable(candidates) {
            Some(i) => 0 <= i < candidates.len() && candidates[i].1 && forall|j: int|
                0 <= j < i ==> !(#[trigger] candidates[j]).1,
            None => forall|j: int| 0 <= j < candidates.len() ==> !(#[trigger] candidates[j]).1,
        },
    decreases candidates.len(),
{
    if candidates.len() > 0 {
        let before = candidates.drop_last();
        law_first_executable(before);
        assert forall|j: int|
            0 <= j < before.len() implies #[trigger] candidates[j] == before[j] by {}
    }
}

} // verus!
