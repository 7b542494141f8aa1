//! Key handling, and the one-event step of the session loop.
use crate::app::{App, ExitAction, LoadStatus};
use crate::aws::Instance;
use vstd::prelude::*;

verus! {

/// A key as the session reads it.
#[derive(Debug, Clone, Copy, PartialEq, Eq, Structural)]
pub enum KeyCode {
    Esc,
    Enter,
    Backspace,
    Up,
    Down,
    Char(char),
    Other,
}

/// A key press, with whether Control was held and no other modifier.
#[derive(Debug, Clone, Copy, PartialEq, Eq, Structural)]
pub struct KeyEvent {
    pub code: KeyCode,
    pub ctrl: bool,
}

/// One thing that the session loop waits for.
pub enum Event {
    /// The periodic tick that animates the loading indicator.
    Tick,
    /// A key press.
    Key(KeyEvent),
    /// The outcome of the one-time load: the instances, or why it failed.
    Loaded(Result<Vec<Instance>, String>),
    /// Any other terminal event (mouse, resize): ignored.
    Other,
}

/// Whether the key ends the session without connecting: Escape, or Ctrl+C.
pub open spec fn is_quit_key(k: KeyEvent) -> bool {
    k.code == KeyCode::Esc || (k.ctrl && (k.code == KeyCode::Char('c') || k.code == KeyCode::Char('C')))
}

/// Whether the key is ignored: a key outside the table, or a character typed
/// with Control other than Ctrl+C.
pub open spec fn is_ignored_key(k: KeyEvent) -> bool {
    k.code == KeyCode::Other || (k.ctrl && k.code is Char && !is_quit_key(k))
}

/// The state `post` that a key press `k` leaves after the state `pre`.
pub open spec fn key_outcome(k: KeyEvent, pre: App, post: App) -> bool {
    &&& post.wf()
    &&& post.keeps_settings(&pre)
    &&& if is_quit_key(k) {
        &&& !post.running
        &&& post.exit_action == ExitAction::Quit
        &&& post.keeps_view(&pre)
    } else if is_ignored_key(k) {
        post == pre
    } else if k.code == KeyCode::Enter {
        &&& post.keeps_view(&pre)
        &&& if pre.selected is Some {
            !post.running && post.exit_action == ExitAction::QuitAndConnect
        } else {
            post.keeps_course(&pre)
        }
    } else {
        &&& post.keeps_course(&pre)
        &&& match k.code {
            KeyCode::Char(ch) => post.query@ == pre.query@.push(ch) && post.freshly_filtered(),
            KeyCode::Backspace => post.freshly_filtered() && post.query@ == (if pre.query@.len()
                > 0 {
                pre.query@.drop_last()
            } else {
                pre.query@
            }),
            KeyCode::Up => {
                &&& post.query == pre.query
                &&& post.filtered == pre.filtered
                &&& post.selected == (match pre.selected {
                    Some(i) => Some(if i > 0 { (i - 1) as usize } else { 0usize }),
                    None => None,
                })
            },
            _ => {
                &&& post.query == pre.query
                &&& post.filtered == pre.filtered
                &&& post.selected == (match pre.selected {
                    Some(i) => Some(if i + 1 < pre.filtered@.len() { (i + 1) as usize } else { i }),
                    None => None,
                })
            },
        }
    }
}

/// Applies one key press to the session.
///
/// Escape and Ctrl+C quit; Enter ends the session to connect when an
/// instance is selected; a character typed without Control extends the
/// query; Backspace shortens it; Up and Down move the selection. Other keys
/// are ignored.
pub fn handle_key_events(key_event: KeyEvent, app: &mut App)
    requires
        old(app).wf(),
    ensures
        key_outcome(key_event, *old(app), *final(app)),
{
    match key_event.code {
        KeyCode::Esc => app.quit(),
        KeyCode::Char(ch) => {
            if key_event.ctrl {
                if ch == 'c' || ch == 'C' {
                    app.quit();
                }
            } else {
                app.push_char(ch);
            }
        },
        KeyCode::Enter => app.start(),
        KeyCode::Up => app.scroll_up(),
        KeyCode::Down => app.scroll_down(),
        KeyCode::Backspace => app.backspace(),
        KeyCode::Other => {},
    }
}

/// Applies one event to the session. A load outcome is taken only while the
/// load is pending; any later one is dropped.
pub fn handle_event(event: Event, app: &mut App)
    requires
        old(app).wf(),
    ensures
        final(app).wf(),
        event is Tick ==> final(app).keeps_view(old(app)) && final(app).keeps_course(old(app))
            && final(app).instances == old(app).instances && final(app).profile == old(app).profile
            && final(app).port == old(app).port && final(app).throbber_frame == (if old(
            app).throbber_frame < 127 {
            old(app).throbber_frame + 1
        } else {
            127
        }),
        event is Other ==> *final(app) == *old(app),
        event is Loaded && !(old(app).instances is Pending) ==> *final(app) == *old(app),
        old(app).instances is Pending ==> (event matches Event::Loaded(Ok(v)) ==> final(
            app).instances == LoadStatus::Loaded(v)),
        old(app).instances is Pending ==> (event matches Event::Loaded(Err(e)) ==> final(
            app).instances == LoadStatus::Failed(e)),
        event is Loaded && old(app).instances is Pending ==> final(app).freshly_filtered()
            && final(app).query == old(app).query && final(app).keeps_course(old(app))
            && final(app).profile == old(app).profile && final(app).port == old(app).port
            && final(app).throbber_frame == old(app).throbber_frame,
        event matches Event::Key(k) ==> key_outcome(k, *old(app), *final(app)),
{
    match event {
        Event::Tick => app.tick(),
        Event::Key(k) => handle_key_events(k, app),
        Event::Loaded(outcome) => {
            if matches!(app.instances, LoadStatus::Pending) {
                app.load(outcome);
            }
        },
        Event::Other => {},
    }
}

} // verus!
