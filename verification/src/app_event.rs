//! Everything that happens to a frontend.

use vstd::prelude::*;

use crate::app::{App, AppV};
use crate::frontend::{
    Action, AppEvent, HandleOutcome, KeyFacts, MouseEvent, MouseFacts, UiEffect, UiEffectV,
};
use crate::input::{KeyEvent, KeyKind};
use crate::surface::SurfaceKind;
use crate::ui::MenuAction;

verus! {

impl AppEvent {
    /// Row numbers stay in range.
    pub open spec fn wf(self) -> bool {
        self matches AppEvent::Mouse(_, facts) ==> facts.wf()
    }
}

impl AppV {
    /// An event, and what became of it. Whatever the user does at this
    /// client first claims the sizes of the surfaces that are visible in it.
    #[verifier::opaque]
    pub open spec fn happened(self, event: AppEvent) -> (AppV, HandleOutcome) {
        match event {
            AppEvent::Mux(event) => {
                let (next, needs_draw) = self.notified(event);
                (next, HandleOutcome { needs_draw, user_interaction: false })
            },
            AppEvent::Key(key, facts) => {
                let user_interaction = key.kind != KeyKind::Release;
                let claimed = if user_interaction {
                    self.reasserted()
                } else {
                    self
                };
                let (next, needs_draw) = claimed.keyed(key, facts);
                (next, HandleOutcome { needs_draw, user_interaction })
            },
            AppEvent::Mouse(mouse, facts) => {
                let (next, needs_draw) = self.reasserted().moused(mouse, facts);
                (next, HandleOutcome { needs_draw, user_interaction: true })
            },
            AppEvent::Paste(text, kind) => {
                let (next, needs_draw) = self.reasserted().pasted(text@, kind);
                (next, HandleOutcome { needs_draw, user_interaction: true })
            },
            AppEvent::FocusGained => (
                self.reasserted(),
                HandleOutcome { needs_draw: true, user_interaction: true },
            ),
            AppEvent::Resize => (
                self.doing(seq![UiEffectV::RefreshCellPixels, UiEffectV::ClearRenders]),
                HandleOutcome { needs_draw: true, user_interaction: true },
            ),
            AppEvent::Other => (
                self,
                HandleOutcome { needs_draw: false, user_interaction: false },
            ),
        }
    }
}

impl App {
    pub fn handle(&mut self, event: AppEvent) -> (outcome: HandleOutcome)
        requires
            old(self).wf(),
            event.wf(),
        ensures
            final(self).wf(),
            final(self)@ == old(self)@.happened(event).0,
            outcome == old(self)@.happened(event).1,
    {
        reveal(AppV::happened);
        match event {
            AppEvent::Mux(event) => HandleOutcome::new(self.handle_mux_event(&event), false),
            AppEvent::Key(key, facts) => {
                let user_interaction = key.kind != KeyKind::Release;
                if user_interaction {
                    self.reassert_visible_surface_sizes();
                }
                HandleOutcome::new(self.handle_key(&key, &facts), user_interaction)
            },
            AppEvent::Mouse(mouse, facts) => {
                self.reassert_visible_surface_sizes();
                HandleOutcome::new(self.handle_mouse(&mouse, &facts), true)
            },
            AppEvent::Paste(text, kind) => {
                self.reassert_visible_surface_sizes();
                HandleOutcome::new(self.paste(text, kind), true)
            },
            AppEvent::FocusGained => {
                self.reassert_visible_surface_sizes();
                HandleOutcome::new(true, true)
            },
            AppEvent::Resize => {
                self.request(UiEffect::RefreshCellPixels);
                self.request(UiEffect::ClearRenders);
                assert(self@.outbox =~= old(self)@.outbox + seq![
                    UiEffectV::RefreshCellPixels,
                    UiEffectV::ClearRenders,
                ]);
                HandleOutcome::new(true, true)
            },
            AppEvent::Other => HandleOutcome::new(false, false),
        }
    }
}

/// What the session does on its own claims no sizes: an idle client does not
/// take part in the size of a surface.
pub proof fn law_only_users_claim_sizes(app: AppV, event: AppEvent)
    requires
        !app.happened(event).1.user_interaction,
    ensures
        forall|i: int|
            #![trigger app.happened(event).0.outbox[i]]
            app.outbox.len() <= i < app.happened(event).0.outbox.len() ==> !(
            app.happened(event).0.outbox[i] is Reassert),
{
    reveal(AppV::happened);
    reveal(AppV::keyed);
}

/// All work that `a` asks for, `b` asks for in the same order, and then more
/// or nothing.
pub open spec fn grows(a: AppV, b: AppV) -> bool {
    &&& a.outbox.len() <= b.outbox.len()
    &&& forall|i: int| 0 <= i < a.outbox.len() ==> #[trigger] b.outbox[i] == a.outbox[i]
}

proof fn lemma_keys_grow(app: AppV, key: KeyEvent, facts: KeyFacts)
    ensures
        grows(app, app.keyed(key, facts).0),
{
    let cleared = AppV { status_message: None, ..app };
    assert(grows(cleared, cleared.prompt_keyed(facts.input).0)) by {
        reveal(AppV::prompt_keyed);
    }
    assert(grows(cleared, cleared.menu_keyed(key, facts.now).0)) by {
        reveal(AppV::menu_keyed);
        if cleared.menu is Some {
            let menu = cleared.menu->0;
            lemma_entries_grow(
                AppV { menu: None, ..cleared },
                menu.items[menu.selected],
                facts.now,
            );
        }
    }
    assert(grows(cleared, cleared.plain_keyed(key, facts).0)) by {
        reveal(AppV::plain_keyed);
        reveal(AppV::prefix_keyed);
        let disarmed = AppV { prefix_armed: false, ..cleared };
        if facts.modeless is Some {
            lemma_actions_grow(cleared, facts.modeless->0, facts.active_kind);
        }
        if facts.bound is Some {
            lemma_actions_grow(disarmed, facts.bound->0, facts.active_kind);
        }
    }
    reveal(AppV::keyed);
}

proof fn lemma_actions_grow(app: AppV, action: Action, kind: Option<SurfaceKind>)
    ensures
        grows(app, app.acted(action, kind).0),
{
    reveal(AppV::acted);
}

proof fn lemma_entries_grow(app: AppV, action: MenuAction, now: u64)
    ensures
        grows(app, app.activated(action, now)),
{
    reveal(AppV::activated);
}

proof fn lemma_presses_grow(app: AppV, x: u16, y: u16, facts: MouseFacts)
    ensures
        grows(app, app.left_pressed(x, y, facts).0),
{
    let fresh = AppV { selection: None, drag: None, ..app };
    assert(grows(fresh, fresh.prompt_clicked(x, y).0)) by {
        reveal(AppV::prompt_clicked);
    }
    if app.menu is Some {
        let menu = app.menu->0;
        if menu.item_at(x, y) is Some {
            lemma_entries_grow(
                AppV { menu: None, ..fresh },
                menu.items[menu.item_at(x, y)->0],
                facts.now,
            );
        }
    }
    assert(app.hit_at(x, y) is Some ==> grows(
        fresh,
        fresh.hit_pressed(app.hit_at(x, y)->0, x, y),
    )) by {
        reveal(AppV::hit_pressed);
    }
    assert(app.area_at(x, y) is Some ==> grows(
        fresh,
        fresh.area_pressed(app.area_at(x, y)->0, x, y, facts),
    )) by {
        reveal(AppV::area_pressed);
    }
    reveal(AppV::left_pressed);
}

proof fn lemma_mouse_grows(app: AppV, mouse: MouseEvent, facts: MouseFacts)
    ensures
        grows(app, app.moused(mouse, facts).0),
{
    let (x, y) = (mouse.column, mouse.row);
    lemma_presses_grow(app, x, y, facts);
    assert(grows(app, app.left_dragged(x, y, facts).0)) by {
        reveal(AppV::left_dragged);
    }
    assert(grows(app, app.left_released(x, y).0)) by {
        reveal(AppV::left_released);
    }
    assert(grows(app, app.right_pressed(x, y))) by {
        reveal(AppV::menu_opened);
    }
    assert(grows(app, app.right_dragged(x, y).0)) by {
        reveal(AppV::right_dragged);
    }
    assert(grows(app, app.right_released(x, y, facts.now).0)) by {
        reveal(AppV::right_released);
        if app.menu is Some && app.menu->0.item_at(x, y) is Some {
            let menu = app.menu->0;
            lemma_entries_grow(
                AppV { menu: None, ..app },
                menu.items[menu.item_at(x, y)->0],
                facts.now,
            );
        }
    }
    assert(grows(app, app.hovered(x, y).0)) by {
        reveal(AppV::hovered);
    }
    assert(forall|down: bool| grows(app, #[trigger] app.wheeled(x, y, down, facts).0)) by {
        reveal(AppV::wheeled);
    }
    reveal(AppV::moused);
}

/// No event takes back work that was asked for and is not done yet.
pub proof fn law_work_is_kept(app: AppV, event: AppEvent)
    ensures
        grows(app, app.happened(event).0),
{
    match event {
        AppEvent::Key(key, facts) => {
            lemma_keys_grow(app, key, facts);
            lemma_keys_grow(app.reasserted(), key, facts);
        },
        AppEvent::Mouse(mouse, facts) => lemma_mouse_grows(app.reasserted(), mouse, facts),
        _ => {},
    }
    reveal(AppV::happened);
}

/// Whatever the user does, except to resize the terminal, first claims the
/// size of every surface that is visible.
pub proof fn law_users_claim_sizes(app: AppV, event: AppEvent)
    requires
        app.happened(event).1.user_interaction,
        !(event is Resize),
    ensures
        grows(app.reasserted(), app.happened(event).0),
{
    match event {
        AppEvent::Key(key, facts) => lemma_keys_grow(app.reasserted(), key, facts),
        AppEvent::Mouse(mouse, facts) => lemma_mouse_grows(app.reasserted(), mouse, facts),
        _ => {},
    }
    reveal(AppV::happened);
}

} // verus!
