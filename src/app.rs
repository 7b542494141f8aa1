//! The session state: the query, the load status, the filtered view, the
//! selection, and how the session is to end.
use crate::aws::{
    fuzzy_search_instances, lemma_empty_query_keeps_all, matching, views_of, Instance, InstanceView,
};
use crate::text::{append_char, remove_last_char};
use vstd::prelude::*;

verus! {

/// Where the one-time load of the instance list stands.
pub enum LoadStatus {
    Pending,
    Loaded(Vec<Instance>),
    Failed(String),
}

/// How the session is to end.
#[derive(Debug, Clone, Copy, PartialEq, Eq, Structural)]
pub enum ExitAction {
    Continue,
    Quit,
    QuitAndConnect,
}

/// What follows the end of the session.
pub enum Handoff {
    /// Exit without connecting.
    Exit,
    /// Open a forwarded session to `target` on local `port`.
    Connect { target: Instance, port: u16 },
    /// A connection was asked for, but no local port was free.
    NoFreePort,
}

/// The session state.
pub struct App {
    pub running: bool,
    /// The frame of the loading indicator; it only moves on.
    pub throbber_frame: i8,
    pub query: String,
    pub filtered: Vec<Instance>,
    pub instances: LoadStatus,
    pub selected: Option<usize>,
    pub profile: String,
    pub exit_action: ExitAction,
    pub port: Option<u16>,
}

/// The records that a load status and a query show: the loaded records that
/// match the query, in load order; nothing before or without a load.
pub open spec fn filter_of(status: LoadStatus, q: Seq<char>) -> Seq<InstanceView> {
    match status {
        LoadStatus::Loaded(v) => matching(views_of(v@), q),
        _ => Seq::empty(),
    }
}

/// The selection right after the view is recomputed.
pub open spec fn reset_selection(n: nat) -> Option<usize> {
    if n > 0 {
        Some(0usize)
    } else {
        None
    }
}

impl App {
    /// The state's invariant: the view is what the load status and the query
    /// show, the selection lies in it exactly when it is non-empty, and the
    /// session runs until an exit action is chosen.
    pub open spec fn wf(&self) -> bool {
        &&& views_of(self.filtered@) == filter_of(self.instances, self.query@)
        &&& (self.selected is Some <==> self.filtered@.len() > 0)
        &&& (self.selected matches Some(i) ==> i < self.filtered@.len())
        &&& (self.running <==> self.exit_action == ExitAction::Continue)
    }

    /// The load status, the profile, the reserved port and the indicator
    /// frame are as in `o`.
    pub open spec fn keeps_settings(&self, o: &App) -> bool {
        &&& self.instances == o.instances
        &&& self.profile == o.profile
        &&& self.port == o.port
        &&& self.throbber_frame == o.throbber_frame
    }

    /// Whether the session runs, and how it is to end, are as in `o`.
    pub open spec fn keeps_course(&self, o: &App) -> bool {
        &&& self.running == o.running
        &&& self.exit_action == o.exit_action
    }

    /// The query, the view and the selection are as in `o`.
    pub open spec fn keeps_view(&self, o: &App) -> bool {
        &&& self.query == o.query
        &&& self.filtered == o.filtered
        &&& self.selected == o.selected
    }

    /// The view was just recomputed: it is what the status and query show,
    /// and the selection is back at the first record, if any.
    pub open spec fn freshly_filtered(&self) -> bool {
        &&& views_of(self.filtered@) == filter_of(self.instances, self.query@)
        &&& self.selected == reset_selection(self.filtered@.len())
    }

    /// A new session: nothing loaded, an empty query, no selection, running.
    /// The profile shown is `profile`, or `NOT SET` without one.
    pub fn new(profile: Option<String>) -> (r: App)
        ensures
            r.wf(),
            r.running,
            r.exit_action == ExitAction::Continue,
            r.instances is Pending,
            r.query@.len() == 0,
            r.filtered@.len() == 0,
            r.selected is None,
            r.port is None,
            r.throbber_frame == 0,
            profile matches Some(p) ==> r.profile == p,
            profile is None ==> r.profile@ == "NOT SET"@,
    {
        let profile = match profile {
            Some(p) => p,
            None => "NOT SET".to_string(),
        };
        assert(views_of(Seq::<Instance>::empty()) =~= Seq::<InstanceView>::empty());
        App {
            running: true,
            throbber_frame: 0,
            query: String::new(),
            filtered: Vec::new(),
            instances: LoadStatus::Pending,
            selected: None,
            profile,
            exit_action: ExitAction::Continue,
            port: None,
        }
    }

    /// Advances the loading indicator by one frame, stopping at the last
    /// one; nothing else changes.
    pub fn tick(&mut self)
        ensures
            final(self).throbber_frame == (if old(self).throbber_frame < 127 {
                old(self).throbber_frame + 1
            } else {
                127
            }),
            final(self).keeps_course(old(self)),
            final(self).keeps_view(old(self)),
            final(self).instances == old(self).instances,
            final(self).profile == old(self).profile,
            final(self).port == old(self).port,
    {
        if self.throbber_frame < 127 {
            self.throbber_frame = self.throbber_frame + 1;
        }
    }

    /// Takes the outcome of the one-time load, then recomputes the view.
    pub fn load(&mut self, instances: Result<Vec<Instance>, String>)
        requires
            old(self).wf(),
            old(self).instances is Pending,
        ensures
            final(self).wf(),
            final(self).freshly_filtered(),
            instances matches Ok(v) ==> final(self).instances == LoadStatus::Loaded(v),
            instances matches Err(e) ==> final(self).instances == LoadStatus::Failed(e),
            final(self).query == old(self).query,
            final(self).keeps_course(old(self)),
            final(self).profile == old(self).profile,
            final(self).port == old(self).port,
            final(self).throbber_frame == old(self).throbber_frame,
    {
        self.instances = match instances {
            Ok(v) => LoadStatus::Loaded(v),
            Err(e) => LoadStatus::Failed(e),
        };
        self.filter();
    }

    /// Ends the session without connecting.
    pub fn quit(&mut self)
        requires
            old(self).wf(),
        ensures
            final(self).wf(),
            !final(self).running,
            final(self).exit_action == ExitAction::Quit,
            final(self).keeps_view(old(self)),
            final(self).keeps_settings(old(self)),
    {
        self.running = false;
        self.exit_action = ExitAction::Quit;
    }

    /// Ends the session to connect to the selected instance; without a
    /// selection nothing changes.
    pub fn start(&mut self)
        requires
            old(self).wf(),
        ensures
            final(self).wf(),
            old(self).selected is Some ==> !final(self).running && final(self).exit_action
                == ExitAction::QuitAndConnect,
            old(self).selected is None ==> final(self).keeps_course(old(self)),
            final(self).keeps_view(old(self)),
            final(self).keeps_settings(old(self)),
    {
        if self.selected.is_some() {
            self.running = false;
            self.exit_action = ExitAction::QuitAndConnect;
        }
    }

    /// Appends `ch` to the query, then recomputes the view.
    pub fn push_char(&mut self, ch: char)
        requires
            old(self).wf(),
        ensures
            final(self).wf(),
            final(self).freshly_filtered(),
            final(self).query@ == old(self).query@.push(ch),
            final(self).keeps_course(old(self)),
            final(self).keeps_settings(old(self)),
    {
        append_char(&mut self.query, ch);
        self.filter();
    }

    /// Removes the last character of the query, if any, then recomputes the
    /// view.
    pub fn backspace(&mut self)
        requires
            old(self).wf(),
        ensures
            final(self).wf(),
            final(self).freshly_filtered(),
            old(self).query@.len() > 0 ==> final(self).query@ == old(self).query@.drop_last(),
            old(self).query@.len() == 0 ==> final(self).query@ == old(self).query@,
            final(self).keeps_course(old(self)),
            final(self).keeps_settings(old(self)),
    {
        remove_last_char(&mut self.query);
        self.filter();
    }

    /// Moves the selection one record down, stopping at the last one.
    pub fn scroll_down(&mut self)
        requires
            old(self).wf(),
        ensures
            final(self).wf(),
            old(self).selected is Some && old(self).selected->0 + 1 < old(self).filtered@.len()
                ==> final(self).selected == Some((old(self).selected->0 + 1) as usize),
            old(self).selected is Some && old(self).selected->0 + 1 >= old(self).filtered@.len()
                ==> final(self).selected == old(self).selected,
            old(self).selected is None ==> final(self).selected is None,
            old(self).filtered@.len() == 0 ==> *final(self) == *old(self),
            final(self).query == old(self).query,
            final(self).filtered == old(self).filtered,
            final(self).keeps_course(old(self)),
            final(self).keeps_settings(old(self)),
    {
        if let Some(i) = self.selected {
            if i < self.filtered.len() - 1 {
                self.selected = Some(i + 1);
            }
        }
    }

    /// Moves the selection one record up, stopping at the first one.
    pub fn scroll_up(&mut self)
        requires
            old(self).wf(),
        ensures
            final(self).wf(),
            old(self).selected is Some && old(self).selected->0 > 0 ==> final(self).selected
                == Some((old(self).selected->0 - 1) as usize),
            old(self).selected == Some(0usize) ==> final(self).selected == old(self).selected,
            old(self).selected is None ==> final(self).selected is None,
            old(self).filtered@.len() == 0 ==> *final(self) == *old(self),
            final(self).query == old(self).query,
            final(self).filtered == old(self).filtered,
            final(self).keeps_course(old(self)),
            final(self).keeps_settings(old(self)),
    {
        if let Some(i) = self.selected {
            if i > 0 {
                self.selected = Some(i - 1);
            }
        }
    }

    /// Recomputes the view from the load status and the query, and puts the
    /// selection back at the first record, if any.
    pub fn filter(&mut self)
        ensures
            final(self).freshly_filtered(),
            final(self).query == old(self).query,
            final(self).keeps_course(old(self)),
            final(self).keeps_settings(old(self)),
    {
        let filtered = match &self.instances {
            LoadStatus::Loaded(is) => fuzzy_search_instances(is.as_slice(), self.query.as_str()),
            _ => Vec::new(),
        };
        proof {
            if !(self.instances is Loaded) {
                assert(views_of(filtered@) =~= Seq::<InstanceView>::empty());
            }
        }
        self.filtered = filtered;
        self.selected = if self.filtered.len() > 0 {
            Some(0)
        } else {
            None
        };
    }

    /// What follows the end of the session: a connection to the selected
    /// instance on the reserved port when one was asked for, an instance is
    /// selected and a port is known; a refusal when no port is; and a plain
    /// exit otherwise.
    pub fn handoff(&self) -> (r: Handoff)
        requires
            self.wf(),
        ensures
            self.exit_action != ExitAction::QuitAndConnect ==> r is Exit,
            self.exit_action == ExitAction::QuitAndConnect && self.selected is None ==> r is Exit,
            self.exit_action == ExitAction::QuitAndConnect && self.selected is Some
                && self.port is None ==> r is NoFreePort,
            self.exit_action == ExitAction::QuitAndConnect && self.selected is Some
                && self.port is Some ==> (r matches Handoff::Connect { target, port } && port == self.port->0
                && target@ == self.filtered@[self.selected->0 as int]@),
    {
        if self.exit_action != ExitAction::QuitAndConnect {
            return Handoff::Exit;
        }
        match (self.selected, self.port) {
            (None, _) => Handoff::Exit,
            (Some(_), None) => Handoff::NoFreePort,
            (Some(i), Some(port)) => Handoff::Connect {
                target: self.filtered[i].copy_instance(),
                port,
            },
        }
    }
}

/// After a recompute with the empty query, the view is the whole loaded list
/// in load order, with the first record selected if there is one.
pub proof fn lemma_empty_query_shows_all(a: App, v: Vec<Instance>)
    requires
        a.freshly_filtered(),
        a.instances == LoadStatus::Loaded(v),
        a.query@.len() == 0,
    ensures
        views_of(a.filtered@) == views_of(v@),
        a.selected == reset_selection(v@.len()),
{
    assert(a.query@ =~= Seq::<char>::empty());
    lemma_empty_query_keeps_all(views_of(v@));
}

/// Recomputing is idempotent: two recomputes from the same load status and
/// query give the same view and the same selection, the first record's.
pub proof fn lemma_filter_idempotent(a: App, b: App)
    requires
        a.freshly_filtered(),
        b.freshly_filtered(),
        a.instances == b.instances,
        a.query@ == b.query@,
    ensures
        views_of(a.filtered@) == views_of(b.filtered@),
        a.selected == b.selected,
        a.filtered@.len() > 0 ==> a.selected == Some(0usize),
{
    assert(views_of(a.filtered@).len() == a.filtered@.len());
    assert(views_of(b.filtered@).len() == b.filtered@.len());
}

} // verus!
