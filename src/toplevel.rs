//! The window watcher's registry: which windows the compositor has announced,
//! what their titles and application ids are, and which one has focus. The
//! registry is a reducer over the protocol's events; the caller feeds it the
//! events it receives and asks it which window to report.
use vstd::prelude::*;

use crate::error::WatcherError;

verus! {

/// The protocol's state value that marks a window as holding input focus.
pub const STATE_ACTIVATED: u32 = 2;

/// One open window.
#[derive(Debug)]
pub struct WindowRecord {
    pub id: String,
    pub app_id: String,
    pub title: String,
}

/// What the registry knows of a window.
pub struct WindowView {
    pub app_id: Seq<char>,
    pub title: Seq<char>,
}

/// The registry as a mapping from window id to its properties, and the id of
/// the window last seen focused, which may name a window that has closed.
pub struct RegistryView {
    pub windows: Map<Seq<char>, WindowView>,
    pub current: Option<Seq<char>>,
}

/// A message that the compositor pushes about its windows.
#[derive(Debug)]
pub enum ToplevelEvent {
    /// A new window handle has been announced.
    Toplevel { id: String },
    Title { id: String, title: String },
    AppId { id: String, app_id: String },
    /// The window's state values (activated, maximized, ...) have changed.
    State { id: String, states: Vec<u32> },
    /// The end of a batch of property updates for one window.
    Done { id: String },
    Closed { id: String },
    /// The manager has stopped: no further events will arrive.
    Finished,
}

/// What handling one event amounted to.
#[derive(Clone, Copy, Debug, PartialEq, Eq, Structural)]
pub enum EventOutcome {
    /// The event was taken into the registry (or needed no change).
    Applied,
    /// The event named a window that the registry does not hold; it was dropped.
    UnknownWindow,
    /// A close named a window that was already gone; nothing changed.
    AlreadyRemoved,
    /// The manager has finished: the session is over.
    ManagerFinished,
}

impl WindowRecord {
    pub open spec fn view_of(&self) -> WindowView {
        WindowView { app_id: self.app_id@, title: self.title@ }
    }
}

pub open spec fn unknown_label() -> Seq<char> {
    "unknown"@
}

/// A fresh window before any of its properties arrive.
pub open spec fn placeholder_window() -> WindowView {
    WindowView { app_id: unknown_label(), title: unknown_label() }
}

/// No two records share an id.
pub open spec fn ids_unique(s: Seq<WindowRecord>) -> bool {
    forall|i: int, j: int|
        0 <= i < s.len() && 0 <= j < s.len() && i != j ==> #[trigger] s[i].id@ != #[trigger] s[j].id@
}

/// The mapping from id to properties that a sequence of records stands for.
pub open spec fn window_map(s: Seq<WindowRecord>) -> Map<Seq<char>, WindowView> {
    Map::new(
        |k: Seq<char>| exists|i: int| 0 <= i < s.len() && #[trigger] s[i].id@ == k,
        |k: Seq<char>|
            {
                let i = choose|i: int| 0 <= i < s.len() && #[trigger] s[i].id@ == k;
                s[i].view_of()
            },
    )
}

/// Whether a state set marks the window as focused.
pub open spec fn has_activated(states: Seq<u32>) -> bool {
    states.contains(STATE_ACTIVATED)
}

/// The documented effect of one event on the registry.
pub open spec fn apply_event(m: RegistryView, e: ToplevelEvent) -> RegistryView {
    match e {
        ToplevelEvent::Toplevel { id } => RegistryView {
            windows: m.windows.insert(id@, placeholder_window()),
            current: m.current,
        },
        ToplevelEvent::Title { id, title } => if m.windows.contains_key(id@) {
            RegistryView {
                windows: m.windows.insert(
                    id@,
                    WindowView { app_id: m.windows[id@].app_id, title: title@ },
                ),
                current: m.current,
            }
        } else {
            m
        },
        ToplevelEvent::AppId { id, app_id } => if m.windows.contains_key(id@) {
            RegistryView {
                windows: m.windows.insert(
                    id@,
                    WindowView { app_id: app_id@, title: m.windows[id@].title },
                ),
                current: m.current,
            }
        } else {
            m
        },
        ToplevelEvent::State { id, states } => if m.windows.contains_key(id@) && has_activated(
            states@,
        ) {
            RegistryView { windows: m.windows, current: Some(id@) }
        } else {
            m
        },
        ToplevelEvent::Done { .. } => m,
        ToplevelEvent::Closed { id } => RegistryView {
            windows: m.windows.remove(id@),
            current: m.current,
        },
        ToplevelEvent::Finished => m,
    }
}

/// What handling one event reports.
pub open spec fn event_outcome(m: RegistryView, e: ToplevelEvent) -> EventOutcome {
    match e {
        ToplevelEvent::Toplevel { .. } => EventOutcome::Applied,
        ToplevelEvent::Title { id, .. } => known_or_unknown(m, id@),
        ToplevelEvent::AppId { id, .. } => known_or_unknown(m, id@),
        ToplevelEvent::State { id, .. } => known_or_unknown(m, id@),
        ToplevelEvent::Done { id } => known_or_unknown(m, id@),
        ToplevelEvent::Closed { id } => if m.windows.contains_key(id@) {
            EventOutcome::Applied
        } else {
            EventOutcome::AlreadyRemoved
        },
        ToplevelEvent::Finished => EventOutcome::ManagerFinished,
    }
}

pub open spec fn known_or_unknown(m: RegistryView, id: Seq<char>) -> EventOutcome {
    if m.windows.contains_key(id) {
        EventOutcome::Applied
    } else {
        EventOutcome::UnknownWindow
    }
}

/// The registry after a run of events, taken in order.
pub open spec fn apply_events(m: RegistryView, es: Seq<ToplevelEvent>) -> RegistryView
    decreases es.len(),
{
    if es.len() == 0 {
        m
    } else {
        apply_event(apply_events(m, es.drop_last()), es.last())
    }
}

/// Whether an event would mark its window as focused.
pub open spec fn is_activation(e: ToplevelEvent) -> bool {
    match e {
        ToplevelEvent::State { states, .. } => has_activated(states@),
        _ => false,
    }
}

/// What the reporting step yields from a registry.
pub open spec fn active_window_spec(m: RegistryView) -> Result<(Seq<char>, Seq<char>), WatcherError> {
    match m.current {
        None => Err(WatcherError::NoActiveWindow),
        Some(id) => if m.windows.contains_key(id) {
            Ok((m.windows[id].app_id, m.windows[id].title))
        } else {
            Err(WatcherError::DanglingWindowReference)
        },
    }
}

proof fn lemma_lookup(s: Seq<WindowRecord>, i: int)
    requires
        ids_unique(s),
        0 <= i < s.len(),
    ensures
        window_map(s).contains_key(s[i].id@),
        window_map(s)[s[i].id@] == s[i].view_of(),
{
    let k = s[i].id@;
    assert(exists|j: int| 0 <= j < s.len() && #[trigger] s[j].id@ == k);
    let j = choose|j: int| 0 <= j < s.len() && #[trigger] s[j].id@ == k;
    assert(i == j);
}

/// Unique ids make one key per record.
proof fn lemma_window_count(s: Seq<WindowRecord>)
    requires
        ids_unique(s),
    ensures
        window_map(s).dom().finite(),
        window_map(s).dom().len() == s.len(),
    decreases s.len(),
{
    if s.len() == 0 {
        assert(window_map(s).dom() =~= Set::<Seq<char>>::empty());
    } else {
        let p = s.drop_last();
        let k = s.last().id@;
        assert(ids_unique(p)) by {
            assert forall|i: int, j: int|
                0 <= i < p.len() && 0 <= j < p.len() && i != j implies #[trigger] p[i].id@
                != #[trigger] p[j].id@ by {
                assert(p[i] == s[i] && p[j] == s[j]);
            }
        }
        lemma_window_count(p);
        assert forall|x: Seq<char>| #[trigger]
            window_map(s).dom().contains(x) == window_map(p).dom().insert(k).contains(x) by {
            if window_map(s).contains_key(x) && x != k {
                let a = choose|a: int| 0 <= a < s.len() && #[trigger] s[a].id@ == x;
                assert(a != s.len() - 1);
                assert(p[a] == s[a]);
            }
            if window_map(p).contains_key(x) {
                let a = choose|a: int| 0 <= a < p.len() && #[trigger] p[a].id@ == x;
                assert(p[a] == s[a]);
            }
            if x == k {
                assert(s[s.len() - 1].id@ == x);
            }
        }
        assert(window_map(s).dom() =~= window_map(p).dom().insert(k));
        assert(!window_map(p).dom().contains(k)) by {
            if window_map(p).contains_key(k) {
                let a = choose|a: int| 0 <= a < p.len() && #[trigger] p[a].id@ == k;
                assert(p[a] == s[a]);
                assert(s[a].id@ == s[s.len() - 1].id@);
            }
        }
    }
}

/// The state of the window watcher: the open windows and the focused one.
pub struct ToplevelState {
    windows: Vec<WindowRecord>,
    current_window_id: Option<String>,
}

impl View for ToplevelState {
    type V = RegistryView;

    closed spec fn view(&self) -> RegistryView {
        RegistryView {
            windows: window_map(self.windows@),
            current: match self.current_window_id {
                Some(id) => Some(id@),
                None => None,
            },
        }
    }
}

impl ToplevelState {
    /// The records never share an id.
    pub closed spec fn wf(&self) -> bool {
        ids_unique(self.windows@)
    }

    /// An empty registry with no focused window.
    pub fn new() -> (r: ToplevelState)
        ensures
            r.wf(),
            r@.windows == Map::<Seq<char>, WindowView>::empty(),
            r@.current is None,
    {
        let r = ToplevelState { windows: Vec::new(), current_window_id: None };
        assert(r@.windows =~= Map::<Seq<char>, WindowView>::empty());
        r
    }

    /// The index of the record with this id, if any.
    fn find(&self, id: &String) -> (r: Option<usize>)
        ensures
            match r {
                Some(i) => i < self.windows@.len() && self.windows@[i as int].id@ == id@,
                None => forall|i: int|
                    0 <= i < self.windows@.len() ==> #[trigger] self.windows@[i].id@ != id@,
            },
    {
        let mut i: usize = 0;
        while i < self.windows.len()
            invariant
                i <= self.windows@.len(),
                forall|j: int| 0 <= j < i ==> #[trigger] self.windows@[j].id@ != id@,
            decreases self.windows@.len() - i,
        {
            if self.windows[i].id == *id {
                return Some(i);
            }
            i = i + 1;
        }
        None
    }

    /// Puts `rec` in place of the record at `i`, which has the same id.
    fn replace_at(&mut self, i: usize, rec: WindowRecord)
        requires
            old(self).wf(),
            i < old(self).windows@.len(),
            rec.id@ == old(self).windows@[i as int].id@,
        ensures
            final(self).wf(),
            final(self)@.windows == old(self)@.windows.insert(rec.id@, rec.view_of()),
            final(self)@.current == old(self)@.current,
    {
        let ghost s0 = self.windows@;
        let ghost k = rec.id@;
        let ghost v = rec.view_of();
        self.windows.set(i, rec);
        let ghost s1 = self.windows@;
        assert(s1 == s0.update(i as int, rec));
        assert forall|a: int, b: int|
            0 <= a < s1.len() && 0 <= b < s1.len() && a != b implies #[trigger] s1[a].id@
            != #[trigger] s1[b].id@ by {
            assert(s0[a].id@ == s1[a].id@);
            assert(s0[b].id@ == s1[b].id@);
        }
        assert forall|x: Seq<char>| #[trigger]
            window_map(s1).contains_key(x) == window_map(s0).insert(k, v).contains_key(x) by {
            if window_map(s1).contains_key(x) {
                let a = choose|a: int| 0 <= a < s1.len() && #[trigger] s1[a].id@ == x;
                assert(s0[a].id@ == x);
            }
            if window_map(s0).contains_key(x) {
                let a = choose|a: int| 0 <= a < s0.len() && #[trigger] s0[a].id@ == x;
                assert(s1[a].id@ == x);
            }
            if x == k {
                assert(s1[i as int].id@ == x);
            }
        }
        assert forall|x: Seq<char>| #[trigger] window_map(s1).contains_key(x) implies window_map(
            s1,
        )[x] == window_map(s0).insert(k, v)[x] by {
            let a = choose|a: int| 0 <= a < s1.len() && #[trigger] s1[a].id@ == x;
            lemma_lookup(s1, a);
            if a != i {
                lemma_lookup(s0, a);
            } else {
                assert(x == k);
            }
        }
        assert(window_map(s1) =~= window_map(s0).insert(k, v));
    }

    /// Adds a record whose id no record has.
    fn push_new(&mut self, rec: WindowRecord)
        requires
            old(self).wf(),
            forall|j: int|
                0 <= j < old(self).windows@.len() ==> #[trigger] old(self).windows@[j].id@
                    != rec.id@,
        ensures
            final(self).wf(),
            final(self)@.windows == old(self)@.windows.insert(rec.id@, rec.view_of()),
            final(self)@.current == old(self)@.current,
    {
        let ghost s0 = self.windows@;
        let ghost k = rec.id@;
        let ghost v = rec.view_of();
        self.windows.push(rec);
        let ghost s1 = self.windows@;
        let ghost n = s0.len() as int;
        assert forall|a: int, b: int|
            0 <= a < s1.len() && 0 <= b < s1.len() && a != b implies #[trigger] s1[a].id@
            != #[trigger] s1[b].id@ by {
            if a < n && b < n {
                assert(s0[a].id@ == s1[a].id@);
                assert(s0[b].id@ == s1[b].id@);
            } else if a < n {
                assert(s0[a].id@ == s1[a].id@);
            } else {
                assert(s0[b].id@ == s1[b].id@);
            }
        }
        assert forall|x: Seq<char>| #[trigger]
            window_map(s1).contains_key(x) == window_map(s0).insert(k, v).contains_key(x) by {
            if window_map(s1).contains_key(x) {
                let a = choose|a: int| 0 <= a < s1.len() && #[trigger] s1[a].id@ == x;
                if a < n {
                    assert(s0[a].id@ == x);
                }
            }
            if window_map(s0).contains_key(x) {
                let a = choose|a: int| 0 <= a < s0.len() && #[trigger] s0[a].id@ == x;
                assert(s1[a].id@ == x);
            }
            if x == k {
                assert(s1[n].id@ == x);
            }
        }
        assert forall|x: Seq<char>| #[trigger] window_map(s1).contains_key(x) implies window_map(
            s1,
        )[x] == window_map(s0).insert(k, v)[x] by {
            let a = choose|a: int| 0 <= a < s1.len() && #[trigger] s1[a].id@ == x;
            lemma_lookup(s1, a);
            if a < n {
                assert(s0[a] == s1[a]);
                lemma_lookup(s0, a);
            }
        }
        assert(window_map(s1) =~= window_map(s0).insert(k, v));
    }

    /// Drops the record at `i`.
    fn remove_at(&mut self, i: usize)
        requires
            old(self).wf(),
            i < old(self).windows@.len(),
        ensures
            final(self).wf(),
            final(self)@.windows == old(self)@.windows.remove(old(self).windows@[i as int].id@),
            final(self)@.current == old(self)@.current,
    {
        let ghost s0 = self.windows@;
        let ghost k = s0[i as int].id@;
        let ghost ii = i as int;
        self.windows.remove(i);
        let ghost s1 = self.windows@;
        assert(s1 == s0.remove(ii));
        assert forall|a: int| 0 <= a < s1.len() implies #[trigger] s1[a] == s0[if a < ii {
            a
        } else {
            a + 1
        }] by {}
        assert forall|a: int, b: int|
            0 <= a < s1.len() && 0 <= b < s1.len() && a != b implies #[trigger] s1[a].id@
            != #[trigger] s1[b].id@ by {
            let a0 = if a < ii { a } else { a + 1 };
            let b0 = if b < ii { b } else { b + 1 };
            assert(s1[a] == s0[a0]);
            assert(s1[b] == s0[b0]);
            assert(s0[a0].id@ != s0[b0].id@);
        }
        assert forall|x: Seq<char>| #[trigger]
            window_map(s1).contains_key(x) == window_map(s0).remove(k).contains_key(x) by {
            if window_map(s1).contains_key(x) {
                let a = choose|a: int| 0 <= a < s1.len() && #[trigger] s1[a].id@ == x;
                let a0 = if a < ii { a } else { a + 1 };
                assert(s1[a] == s0[a0]);
                assert(s0[a0].id@ == x);
                assert(a0 != ii);
                assert(s0[ii].id@ == k);
            }
            if window_map(s0).contains_key(x) && x != k {
                let a0 = choose|a: int| 0 <= a < s0.len() && #[trigger] s0[a].id@ == x;
                assert(a0 != ii);
                let a = if a0 < ii { a0 } else { a0 - 1 };
                assert(s1[a] == s0[a0]);
                assert(s1[a].id@ == x);
            }
        }
        assert forall|x: Seq<char>| #[trigger] window_map(s1).contains_key(x) implies window_map(
            s1,
        )[x] == window_map(s0).remove(k)[x] by {
            let a = choose|a: int| 0 <= a < s1.len() && #[trigger] s1[a].id@ == x;
            let a0 = if a < ii { a } else { a + 1 };
            assert(s1[a] == s0[a0]);
            lemma_lookup(s1, a);
            lemma_lookup(s0, a0);
        }
        assert(window_map(s1) =~= window_map(s0).remove(k));
    }

    /// Takes one event into the registry.
    pub fn event(&mut self, e: &ToplevelEvent) -> (r: EventOutcome)
        requires
            old(self).wf(),
        ensures
            final(self).wf(),
            final(self)@ == apply_event(old(self)@, *e),
            r == event_outcome(old(self)@, *e),
    {
        proof {
            reveal_strlit("unknown");
        }
        match e {
            ToplevelEvent::Toplevel { id } => {
                let rec = WindowRecord {
                    id: id.clone(),
                    app_id: String::from_str("unknown"),
                    title: String::from_str("unknown"),
                };
                match self.find(id) {
                    Some(i) => self.replace_at(i, rec),
                    None => self.push_new(rec),
                }
                EventOutcome::Applied
            },
            ToplevelEvent::Title { id, title } => match self.find(id) {
                Some(i) => {
                    proof {
                        lemma_lookup(self.windows@, i as int);
                    }
                    let rec = WindowRecord {
                        id: id.clone(),
                        app_id: self.windows[i].app_id.clone(),
                        title: title.clone(),
                    };
                    self.replace_at(i, rec);
                    EventOutcome::Applied
                },
                None => EventOutcome::UnknownWindow,
            },
            ToplevelEvent::AppId { id, app_id } => match self.find(id) {
                Some(i) => {
                    proof {
                        lemma_lookup(self.windows@, i as int);
                    }
                    let rec = WindowRecord {
                        id: id.clone(),
                        app_id: app_id.clone(),
                        title: self.windows[i].title.clone(),
                    };
                    self.replace_at(i, rec);
                    EventOutcome::Applied
                },
                None => EventOutcome::UnknownWindow,
            },
            ToplevelEvent::State { id, states } => match self.find(id) {
                Some(i) => {
                    proof {
                        lemma_lookup(self.windows@, i as int);
                    }
                    if contains_state(states, STATE_ACTIVATED) {
                        self.current_window_id = Some(id.clone());
                    }
                    EventOutcome::Applied
                },
                None => EventOutcome::UnknownWindow,
            },
            ToplevelEvent::Done { id } => match self.find(id) {
                Some(i) => {
                    proof {
                        lemma_lookup(self.windows@, i as int);
                    }
                    EventOutcome::Applied
                },
                None => EventOutcome::UnknownWindow,
            },
            ToplevelEvent::Closed { id } => match self.find(id) {
                Some(i) => {
                    proof {
                        lemma_lookup(self.windows@, i as int);
                    }
                    self.remove_at(i);
                    EventOutcome::Applied
                },
                None => {
                    assert(self@.windows.remove(id@) =~= self@.windows);
                    EventOutcome::AlreadyRemoved
                },
            },
            ToplevelEvent::Finished => EventOutcome::ManagerFinished,
        }
    }

    /// Takes a batch of events into the registry, in order, and reports what
    /// each one amounted to.
    pub fn process_events(&mut self, events: &Vec<ToplevelEvent>) -> (r: Vec<EventOutcome>)
        requires
            old(self).wf(),
        ensures
            final(self).wf(),
            final(self)@ == apply_events(old(self)@, events@),
            r@.len() == events@.len(),
            forall|i: int|
                0 <= i < events@.len() ==> #[trigger] r@[i] == event_outcome(
                    apply_events(old(self)@, events@.take(i)),
                    events@[i],
                ),
    {
        let ghost m0 = self@;
        let mut outcomes: Vec<EventOutcome> = Vec::new();
        let mut i: usize = 0;
        while i < events.len()
            invariant
                i <= events@.len(),
                self.wf(),
                self@ == apply_events(m0, events@.take(i as int)),
                outcomes@.len() == i,
                forall|j: int|
                    0 <= j < i ==> #[trigger] outcomes@[j] == event_outcome(
                        apply_events(m0, events@.take(j)),
                        events@[j],
                    ),
            decreases events@.len() - i,
        {
            assert(events@.take(i as int + 1).drop_last() == events@.take(i as int));
            let outcome = self.event(&events[i]);
            outcomes.push(outcome);
            i = i + 1;
        }
        assert(events@.take(i as int) == events@);
        outcomes
    }

    /// The application id and title of the focused window, to be reported.
    /// Fails when no window has been focused yet, or when the focused window
    /// has closed since.
    pub fn send_active_window(&self) -> (r: Result<(String, String), WatcherError>)
        requires
            self.wf(),
        ensures
            match active_window_spec(self@) {
                Ok(p) => r is Ok && r->Ok_0.0@ == p.0 && r->Ok_0.1@ == p.1,
                Err(e) => r == Err::<(String, String), WatcherError>(e),
            },
    {
        match &self.current_window_id {
            None => Err(WatcherError::NoActiveWindow),
            Some(id) => match self.find(id) {
                Some(i) => {
                    proof {
                        lemma_lookup(self.windows@, i as int);
                    }
                    Ok((self.windows[i].app_id.clone(), self.windows[i].title.clone()))
                },
                None => Err(WatcherError::DanglingWindowReference),
            },
        }
    }

    /// The id of the window last seen focused, which may have closed since.
    pub fn current_window_id(&self) -> (r: Option<String>)
        ensures
            match r {
                Some(id) => self@.current == Some(id@),
                None => self@.current is None,
            },
    {
        match &self.current_window_id {
            Some(id) => Some(id.clone()),
            None => None,
        }
    }

    /// The application id and title recorded for a window, if it is open.
    pub fn window(&self, id: &String) -> (r: Option<(String, String)>)
        requires
            self.wf(),
        ensures
            match r {
                Some(p) => self@.windows.contains_key(id@) && p.0@ == self@.windows[id@].app_id
                    && p.1@ == self@.windows[id@].title,
                None => !self@.windows.contains_key(id@),
            },
    {
        match self.find(id) {
            Some(i) => {
                proof {
                    lemma_lookup(self.windows@, i as int);
                }
                Some((self.windows[i].app_id.clone(), self.windows[i].title.clone()))
            },
            None => None,
        }
    }

    /// The number of open windows.
    pub fn window_count(&self) -> (r: usize)
        requires
            self.wf(),
        ensures
            self@.windows.dom().finite(),
            r == self@.windows.dom().len(),
    {
        proof {
            lemma_window_count(self.windows@);
        }
        self.windows.len()
    }
}

/// Whether `states` holds `value`.
fn contains_state(states: &Vec<u32>, value: u32) -> (r: bool)
    ensures
        r == states@.contains(value),
{
    let mut i: usize = 0;
    while i < states.len()
        invariant
            i <= states@.len(),
            forall|j: int| 0 <= j < i ==> states@[j] != value,
        decreases states@.len() - i,
    {
        if states[i] == value {
            return true;
        }
        i = i + 1;
    }
    false
}

/// The window watcher: a live protocol session, held only once the session
/// opened and the toplevel manager was bound.
pub struct WlrForeignToplevelWatcher<C> {
    connection: C,
}

impl<C> WlrForeignToplevelWatcher<C> {
    pub closed spec fn session(&self) -> C {
        self.connection
    }

    /// Builds the watcher from what setting up the session gave: the session,
    /// if it opened, and whether the toplevel manager was bound on it. Either
    /// failure refuses the watcher, so nothing can run it.
    pub fn new(session: Option<C>, manager_bound: bool) -> (r: Result<Self, WatcherError>)
        ensures
            session is None ==> r == Err::<Self, WatcherError>(WatcherError::SessionUnavailable),
            session is Some && !manager_bound ==> r == Err::<Self, WatcherError>(
                WatcherError::SessionUnavailable,
            ),
            session is Some && manager_bound ==> r is Ok && r->Ok_0.session() == session->Some_0,
    {
        match session {
            None => Err(WatcherError::SessionUnavailable),
            Some(connection) => if manager_bound {
                Ok(WlrForeignToplevelWatcher { connection })
            } else {
                Err(WatcherError::SessionUnavailable)
            },
        }
    }

    /// The session, to drive its event queue.
    pub fn connection_mut(&mut self) -> (r: &mut C)
        ensures
            *r == old(self).session(),
            final(self).session() == *final(r),
    {
        &mut self.connection
    }
}

/// Closing a window that the registry does not hold changes nothing and is
/// reported as a duplicate removal, not as a failure.
pub proof fn lemma_close_unknown_is_noop(m: RegistryView, e: ToplevelEvent)
    requires
        e matches ToplevelEvent::Closed { id } && !m.windows.contains_key(id@),
    ensures
        apply_event(m, e) == m,
        event_outcome(m, e) == EventOutcome::AlreadyRemoved,
{
    if let ToplevelEvent::Closed { id } = e {
        assert(m.windows.remove(id@) =~= m.windows);
    }
}

/// An activation of a known window makes it the focused one, whatever was
/// focused before.
pub proof fn lemma_activation_overwrites(m: RegistryView, e: ToplevelEvent)
    requires
        e matches ToplevelEvent::State { id, states } && m.windows.contains_key(id@)
            && has_activated(states@),
    ensures
        e matches ToplevelEvent::State { id, .. } && apply_event(m, e).current == Some(id@),
{
}

/// Closing a window leaves the focused id as it was, even where it is the
/// closed window's: the reference then dangles.
pub proof fn lemma_close_keeps_focus(m: RegistryView, e: ToplevelEvent)
    requires
        e is Closed,
    ensures
        apply_event(m, e).current == m.current,
        e matches ToplevelEvent::Closed { id } && !apply_event(m, e).windows.contains_key(id@),
        e matches ToplevelEvent::Closed { id } && m.current == Some(id@) ==> active_window_spec(
            apply_event(m, e),
        ) == Err::<(Seq<char>, Seq<char>), WatcherError>(WatcherError::DanglingWindowReference),
{
}

/// Until an activation arrives, the focused id stays what it was.
pub proof fn lemma_focus_kept_until_activation(m: RegistryView, es: Seq<ToplevelEvent>)
    requires
        forall|i: int| 0 <= i < es.len() ==> !is_activation(#[trigger] es[i]),
    ensures
        apply_events(m, es).current == m.current,
    decreases es.len(),
{
    if es.len() > 0 {
        let prefix = es.drop_last();
        assert forall|i: int| 0 <= i < prefix.len() implies !is_activation(#[trigger] prefix[i]) by {
            assert(prefix[i] == es[i]);
        }
        lemma_focus_kept_until_activation(m, prefix);
        assert(!is_activation(es[es.len() - 1]));
    }
}

} // verus!
