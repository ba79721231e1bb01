//! The life of the terminal interface: how it starts, what wakes it, how it
//! ends. It is drawn once after a batch of reports, not after each.

use crate::commands::merge::{splash_marker, splash_text};
use crate::commands::tui::{
    applied, apply_ui_update, fresh_app, noticed, Applied, TuiApp, TuiAppView, UiUpdate,
};
use crate::json::{Json, JsonView};
use crate::notices::{perm_text, perm_unsupported_note};
use vstd::prelude::*;

verus! {

/// The interface as it opens: before there is a session, with the first one on
/// its way.
pub open spec fn opened(ws: Seq<char>, mode: Seq<char>) -> TuiAppView {
    let a = TuiAppView { status: "conectando…"@, mode, ..fresh_app(""@, ws, false) };
    TuiAppView { booting: true, ..noticed(noticed(a, perm_text()), splash_text()) }
}

/// Opens the interface; the mode is the one asked for, else the one of the
/// settings.
pub fn start_app(ws: &str, mode: &Option<String>, configured: &str) -> (r: TuiApp)
    ensures
        r@ == opened(
            ws@,
            match *mode {
                Some(m) => m@,
                None => configured@,
            },
        ),
{
    let mut app = TuiApp::new("", ws, false);
    app.status = "conectando…".to_owned();
    app.mode = match mode {
        Some(m) => m.clone(),
        None => configured.to_owned(),
    };
    let n = perm_unsupported_note();
    app.notice(n.as_str());
    app.notice(splash_marker());
    app.booting = true;
    app
}

/// A step of the animation: only a turn under way is animated. Says whether to
/// draw.
pub fn tick(app: &mut TuiApp) -> (dirty: bool)
    ensures
        dirty == old(app)@.working,
        final(app)@ == if old(app)@.working {
            TuiAppView { tick: old(app)@.tick.wrapping_add(1), ..old(app)@ }
        } else {
            old(app)@
        },
{
    if app.working {
        app.tick = app.tick.wrapping_add(1);
        true
    } else {
        false
    }
}

/// The interface after a batch of reports, one after the other; the session to
/// follow is that of the last report that names one.
pub open spec fn applied_all(a: TuiAppView, created: JsonView, us: Seq<UiUpdate>) -> Applied
    decreases us.len(),
{
    if us.len() == 0 {
        Applied { app: a, created, follow: None }
    } else {
        let before = applied_all(a, created, us.drop_last());
        let last = applied(before.app, before.created, us.last());
        Applied {
            follow: if last.follow is Some {
                last.follow
            } else {
                before.follow
            },
            ..last
        }
    }
}

/// Takes in a batch of reports; says whether there were any, and which session
/// to follow.
pub fn apply_pending_updates(app: &mut TuiApp, created: &mut Json, updates: Vec<UiUpdate>) -> (r: (
    bool,
    Option<String>,
))
    ensures
        final(app)@ == applied_all(old(app)@, old(created)@, updates@).app,
        final(created)@ == applied_all(old(app)@, old(created)@, updates@).created,
        r.0 == (updates@.len() > 0),
        r.1.deep_view() == applied_all(old(app)@, old(created)@, updates@).follow,
{
    let ghost all = updates@;
    let ghost a = app@;
    let ghost c = created@;
    let dirty = updates.len() > 0;
    let mut left = updates;
    let mut follow: Option<String> = None;
    let ghost mut done: int = 0;
    assert(all.skip(0) =~= all);
    assert(all.take(0) =~= Seq::empty());
    while left.len() > 0
        invariant
            0 <= done <= all.len(),
            left@ == all.skip(done),
            app@ == applied_all(a, c, all.take(done)).app,
            created@ == applied_all(a, c, all.take(done)).created,
            follow.deep_view() == applied_all(a, c, all.take(done)).follow,
        decreases left@.len(),
    {
        let u = left.remove(0);
        proof {
            assert(u == all[done]);
            assert(all.take(done + 1).drop_last() =~= all.take(done));
            assert(all.take(done + 1).last() == u);
            assert(left@ =~= all.skip(done + 1));
        }
        let f = apply_ui_update(app, created, u);
        if f.is_some() {
            follow = f;
        }
        proof {
            done = done + 1;
        }
    }
    assert(all.take(done) =~= all);
    (dirty, follow)
}

/// The session to close when the interface ends: one that was there.
pub fn session_to_close(app: &TuiApp) -> (r: Option<String>)
    ensures
        if app@.session_ready && app@.session_id.len() > 0 {
            r matches Some(s) && s@ == app@.session_id
        } else {
            r is None
        },
{
    if app.session_ready && !app.session_id.as_str().is_empty() {
        Some(app.session_id.clone())
    } else {
        None
    }
}

// ---------------------------------------------------------------- laws

/// Reports taken in as one batch do what they do one batch after another.
pub proof fn law_batches_join(a: TuiAppView, created: JsonView, us: Seq<UiUpdate>, vs: Seq<UiUpdate>)
    ensures
        ({
            let first = applied_all(a, created, us);
            let after = applied_all(first.app, first.created, vs);
            let all = applied_all(a, created, us + vs);
            &&& all.app == after.app
            &&& all.created == after.created
            &&& all.follow == if after.follow is Some {
                after.follow
            } else {
                first.follow
            }
        }),
    decreases vs.len(),
{
    if vs.len() == 0 {
        assert(us + vs =~= us);
    } else {
        law_batches_join(a, created, us, vs.drop_last());
        assert((us + vs).drop_last() =~= us + vs.drop_last());
        assert((us + vs).last() == vs.last());
    }
}

/// The interface opens with the first session on its way, and with no turn
/// possible before it is there.
pub proof fn law_opens_before_the_session(ws: Seq<char>, mode: Seq<char>)
    ensures
        opened(ws, mode).booting,
        !opened(ws, mode).session_ready,
        !opened(ws, mode).working,
        opened(ws, mode).session_id.len() == 0,
{
    reveal_strlit("");
}

/// The interface opens in its workspace and its mode.
pub proof fn law_opens_where_asked(ws: Seq<char>, mode: Seq<char>)
    ensures
        opened(ws, mode).workspace == ws,
        opened(ws, mode).mode == mode,
        !opened(ws, mode).read_only,
        opened(ws, mode).queue.len() == 0,
        opened(ws, mode).input.len() == 0,
{
}

} // verus!
