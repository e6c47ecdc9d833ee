//! Keys, pasted text and the session's events.

use vstd::prelude::*;

use crate::app;
use crate::app::{App, AppV};
use crate::frontend::{KeyFacts, UiEffect, UiEffectV};
use crate::input::{KeyCode, KeyEvent, KeyKind};
use crate::mux::MuxEvent;
use crate::session::Request;
use crate::surface::SurfaceKind;
use crate::ui::PaneArea;

verus! {

/// Claims the size of every surface that is visible.
pub open spec fn reassertions(areas: Seq<PaneArea>) -> Seq<UiEffectV>
    decreases areas.len(),
{
    if areas.len() == 0 {
        seq![]
    } else {
        let before = reassertions(areas.drop_last());
        let content = areas.last().content;
        if content.width == 0 || content.height == 0 {
            before
        } else {
            before.push(
                UiEffectV::Reassert {
                    surface: areas.last().surface,
                    cols: content.width,
                    rows: content.height,
                },
            )
        }
    }
}

/// The tab number that a digit key stands for.
pub open spec fn tab_number(code: KeyCode) -> Option<int> {
    match code {
        KeyCode::Char(c) if '1' <= c <= '9' => Some(c as int - '1' as int),
        _ => None,
    }
}

impl AppV {
    /// The visible surfaces get their sizes back.
    pub open spec fn reasserted(self) -> AppV {
        self.doing(reassertions(self.pane_areas))
    }

    /// A key after the prefix: the prefix itself goes to the active surface,
    /// a digit selects a tab, and an unknown key is swallowed.
    #[verifier::opaque]
    pub open spec fn prefix_keyed(self, key: KeyEvent, facts: KeyFacts) -> (AppV, bool) {
        if facts.is_prefix {
            (self.key_forwarded(key, facts.active_kind), true)
        } else if tab_number(key.code) is Some {
            (
                self.asking(
                    Request::SelectTab {
                        pane: self.tree.the_active_pane(),
                        index: Some(tab_number(key.code)->0 as usize),
                        delta: None,
                    },
                ),
                true,
            )
        } else {
            match facts.bound {
                Some(action) => self.acted(action, facts.active_kind),
                None => (self, true),
            }
        }
    }

    /// A key that no prompt and no menu takes.
    #[verifier::opaque]
    pub open spec fn plain_keyed(self, key: KeyEvent, facts: KeyFacts) -> (AppV, bool) {
        match facts.modeless {
            Some(action) => self.acted(action, facts.active_kind),
            None => if self.prefix_armed {
                (AppV { prefix_armed: false, ..self }).prefix_keyed(key, facts)
            } else if facts.is_prefix {
                (AppV { prefix_armed: true, ..self }, true)
            } else {
                (
                    (AppV { selection: None, ..self }).key_forwarded(key, facts.active_kind),
                    false,
                )
            },
        }
    }

    /// A key: an open prompt takes it, else an open menu, else it is a
    /// binding, else it goes to the active surface.
    #[verifier::opaque]
    pub open spec fn keyed(self, key: KeyEvent, facts: KeyFacts) -> (AppV, bool) {
        let cleared = AppV { status_message: None, ..self };
        if key.kind == KeyKind::Release {
            (self, false)
        } else if self.prompt is Some {
            cleared.prompt_keyed(facts.input)
        } else if self.menu is Some {
            cleared.menu_keyed(key, facts.now)
        } else {
            cleared.plain_keyed(key, facts)
        }
    }

    /// Pasted text goes to the open prompt, else to the active surface.
    pub open spec fn pasted(self, text: Seq<char>, kind: Option<SurfaceKind>) -> (AppV, bool) {
        if self.prompt is Some {
            (self.doing(seq![UiEffectV::PromptInsert(text)]), true)
        } else {
            match (self.tree.the_active_surface(), kind) {
                (Some(surface), Some(SurfaceKind::Browser)) => (
                    self.doing(seq![UiEffectV::BrowserText { surface, text }]),
                    false,
                ),
                (Some(surface), Some(SurfaceKind::Pty)) => (
                    self.doing(seq![UiEffectV::Paste { surface, text }]),
                    false,
                ),
                _ => (self, false),
            }
        }
    }

    /// Something happened in the session.
    pub open spec fn notified(self, event: MuxEvent) -> (AppV, bool) {
        match event {
            MuxEvent::Empty => (AppV { quit: true, ..self }, false),
            MuxEvent::SurfaceExited(id) => (
                (AppV {
                    selection: match self.selection {
                        Some(selection) if selection.surface == id => None,
                        kept => kept,
                    },
                    ..self
                }).doing(seq![UiEffectV::ForgetRender(id), UiEffectV::ForgetSurface(id)]),
                true,
            ),
            MuxEvent::SurfaceResized { surface, .. } => (
                self.doing(seq![UiEffectV::ForgetRender(surface)]),
                true,
            ),
            _ => (self, true),
        }
    }
}

impl App {
    /// Claims the size of every surface that is visible.
    pub fn reassert_visible_surface_sizes(&mut self)
        ensures
            final(self)@ == old(self)@.reasserted(),
            old(self).wf() ==> final(self).wf(),
    {
        let mut effects: Vec<UiEffect> = Vec::new();
        let mut i: usize = 0;
        let ghost areas = self.pane_areas@;
        assert(app::effect_values(effects@) =~= reassertions(areas.subrange(0, 0)));
        while i < self.pane_areas.len()
            invariant
                areas == self.pane_areas@,
                i <= areas.len(),
                app::effect_values(effects@) == reassertions(areas.subrange(0, i as int)),
            decreases areas.len() - i,
        {
            let area = &self.pane_areas[i];
            assert(areas.subrange(0, i + 1).drop_last() =~= areas.subrange(0, i as int));
            if area.content.width != 0 && area.content.height != 0 {
                let ghost before = effects@;
                effects.push(
                    UiEffect::Reassert {
                        surface: area.surface,
                        cols: area.content.width,
                        rows: area.content.height,
                    },
                );
                assert(app::effect_values(effects@) =~= app::effect_values(before).push(
                    effects@.last()@,
                ));
            }
            i = i + 1;
        }
        assert(areas.subrange(0, areas.len() as int) =~= areas);
        self.request_all(effects);
    }

    fn handle_prefixed(&mut self, key: &KeyEvent, facts: &KeyFacts) -> (needs_draw: bool)
        requires
            old(self).wf(),
        ensures
            final(self).wf(),
            final(self)@ == old(self)@.prefix_keyed(*key, *facts).0,
            needs_draw == old(self)@.prefix_keyed(*key, *facts).1,
    {
        reveal(AppV::prefix_keyed);
        if facts.is_prefix {
            self.forward_key(key, facts.active_kind);
            return true;
        }
        if let KeyCode::Char(c) = key.code {
            if '1' <= c && c <= '9' {
                let pane = self.tree.active_pane();
                let index: usize = (c as u32 - '1' as u32) as usize;
                self.ask(Request::SelectTab { pane, index: Some(index), delta: None });
                return true;
            }
        }
        match facts.bound {
            Some(action) => self.run_action(action, facts.active_kind),
            None => true,
        }
    }

    fn handle_plain_key(&mut self, key: &KeyEvent, facts: &KeyFacts) -> (needs_draw: bool)
        requires
            old(self).wf(),
        ensures
            final(self).wf(),
            final(self)@ == old(self)@.plain_keyed(*key, *facts).0,
            needs_draw == old(self)@.plain_keyed(*key, *facts).1,
    {
        reveal(AppV::plain_keyed);
        if let Some(action) = facts.modeless {
            return self.run_action(action, facts.active_kind);
        }
        if self.prefix_armed {
            self.prefix_armed = false;
            return self.handle_prefixed(key, facts);
        }
        if facts.is_prefix {
            self.prefix_armed = true;
            return true;
        }
        // Typing replaces any selection highlight.
        self.selection = None;
        self.forward_key(key, facts.active_kind);
        false
    }

    pub fn handle_key(&mut self, key: &KeyEvent, facts: &KeyFacts) -> (needs_draw: bool)
        requires
            old(self).wf(),
        ensures
            final(self).wf(),
            final(self)@ == old(self)@.keyed(*key, *facts).0,
            needs_draw == old(self)@.keyed(*key, *facts).1,
    {
        reveal(AppV::keyed);
        if key.kind == KeyKind::Release {
            return false;
        }
        self.status_message = None;
        if self.prompt.is_some() {
            return self.handle_prompt_key(facts.input);
        }
        if self.menu.is_some() {
            return self.handle_menu_key(key, facts.now);
        }
        self.handle_plain_key(key, facts)
    }

    /// Takes pasted text; `kind` is what drives the active surface.
    pub fn paste(&mut self, text: String, kind: Option<SurfaceKind>) -> (needs_draw: bool)
        ensures
            final(self)@ == old(self)@.pasted(text@, kind).0,
            needs_draw == old(self)@.pasted(text@, kind).1,
            old(self).wf() ==> final(self).wf(),
    {
        if self.prompt.is_some() {
            self.request(UiEffect::PromptInsert(text));
            return true;
        }
        if let Some(surface) = self.tree.active_surface() {
            match kind {
                Some(SurfaceKind::Browser) => self.request(UiEffect::BrowserText { surface, text }),
                Some(SurfaceKind::Pty) => self.request(UiEffect::Paste { surface, text }),
                None => {},
            }
        }
        false
    }

    /// Takes an event of the session.
    pub fn handle_mux_event(&mut self, event: &MuxEvent) -> (needs_draw: bool)
        ensures
            final(self)@ == old(self)@.notified(*event).0,
            needs_draw == old(self)@.notified(*event).1,
            old(self).wf() ==> final(self).wf(),
    {
        match event {
            MuxEvent::Empty => {
                self.quit = true;
                false
            },
            MuxEvent::SurfaceExited(id) => {
                self.request(UiEffect::ForgetRender(*id));
                self.request(UiEffect::ForgetSurface(*id));
                if let Some(selection) = self.selection {
                    if selection.surface == *id {
                        self.selection = None;
                    }
                }
                assert(self@.outbox =~= old(self)@.notified(*event).0.outbox);
                true
            },
            MuxEvent::SurfaceResized { surface, .. } => {
                self.request(UiEffect::ForgetRender(*surface));
                true
            },
            _ => true,
        }
    }
}

/// A key that no prompt, no menu and no binding takes goes to the active
/// surface, and clears the selection.
pub proof fn law_typing(app: AppV, key: KeyEvent, facts: KeyFacts)
    requires
        key.kind != KeyKind::Release,
        app.prompt is None,
        app.menu is None,
        facts.modeless is None,
        !app.prefix_armed,
        !facts.is_prefix,
    ensures
        app.keyed(key, facts).0.selection is None,
        app.keyed(key, facts).0.outbox == app.key_forwarded(key, facts.active_kind).outbox,
{
    reveal(AppV::keyed);
    reveal(AppV::plain_keyed);
}

/// The prefix typed twice goes to the active surface once.
pub proof fn law_prefix_twice(app: AppV, key: KeyEvent, facts: KeyFacts)
    requires
        key.kind != KeyKind::Release,
        app.prompt is None,
        app.menu is None,
        facts.modeless is None,
        facts.is_prefix,
        !app.prefix_armed,
    ensures
        ({
            let once = app.keyed(key, facts).0;
            let twice = once.keyed(key, facts).0;
            &&& once.outbox == app.outbox
            &&& once.prefix_armed
            &&& twice.outbox == app.key_forwarded(key, facts.active_kind).outbox
            &&& !twice.prefix_armed
        }),
{
    reveal(AppV::keyed);
    reveal(AppV::plain_keyed);
    reveal(AppV::prefix_keyed);
}

} // verus!
