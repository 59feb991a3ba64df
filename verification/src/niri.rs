//! Reduction of compositor window events to changes of the focused window.
//!
//! Only each window's application identity and focus are kept; titles and
//! process identifiers never enter this state. The window key handed out is
//! opaque and valid only while the window lives.
use std::collections::HashMap;

use vstd::prelude::*;

use crate::focus::opt_view;
use crate::text::{decimal, decimal_chars, extend_chars, str_eq, string_of};

verus! {

broadcast use vstd::std_specs::hash::group_hash_axioms;

/// A change to the currently focused toplevel window.
#[derive(Clone, Debug, PartialEq, Eq)]
pub struct NiriFocusChange {
    /// Application identity of the focused window, when it has one.
    pub app_id: Option<String>,
    /// Opaque key of the focused window.
    pub window_key: Option<String>,
}

/// What the reducer reads of a window.
#[derive(Clone, Debug, PartialEq, Eq)]
pub struct NiriWindow {
    pub id: u64,
    pub app_id: Option<String>,
    pub is_focused: bool,
}

/// The compositor events that the reducer reads; every other event is `Other`.
#[derive(Clone, Debug, PartialEq, Eq)]
pub enum NiriEvent {
    WindowsChanged { windows: Vec<NiriWindow> },
    WindowOpenedOrChanged { window: NiriWindow },
    WindowClosed { id: u64 },
    WindowFocusChanged { id: Option<u64> },
    Other,
}

/// The view of a focus change.
pub type ChangeView = (Option<Seq<char>>, Option<Seq<char>>);

/// The view of a focus change.
pub open spec fn change_view(c: NiriFocusChange) -> ChangeView {
    (opt_view(c.app_id), opt_view(c.window_key))
}

/// The opaque key of a window: `niri-window:` and its decimal identifier.
pub open spec fn spec_window_key(id: u64) -> Seq<char> {
    seq!['n', 'i', 'r', 'i', '-', 'w', 'i', 'n', 'd', 'o', 'w', ':'] + decimal(id as nat)
}

/// The opaque key of a window.
pub fn opaque_window_key(id: u64) -> (r: String)
    ensures
        r@ == spec_window_key(id),
{
    let mut chars: Vec<char> = Vec::new();
    chars.push('n');
    chars.push('i');
    chars.push('r');
    chars.push('i');
    chars.push('-');
    chars.push('w');
    chars.push('i');
    chars.push('n');
    chars.push('d');
    chars.push('o');
    chars.push('w');
    chars.push(':');
    let digits = decimal_chars(id as u128);
    extend_chars(&mut chars, digits.as_slice());
    proof { assert(chars@ =~= spec_window_key(id)); }
    string_of(chars.as_slice())
}

/// The identity of each window, by window identifier.
pub type AppsView = Map<u64, Option<Seq<char>>>;

/// The focused window as the reducer would report it.
pub open spec fn spec_current(apps: AppsView, focused: Option<u64>) -> ChangeView {
    match focused {
        Some(id) => (if apps.contains_key(id) { apps[id] } else { None }, Some(spec_window_key(id))),
        None => (None, None),
    }
}

/// The identities of a window list; a later entry for an identifier wins.
pub open spec fn windows_map(ws: Seq<NiriWindow>) -> AppsView
    decreases ws.len(),
{
    if ws.len() == 0 {
        Map::empty()
    } else {
        windows_map(ws.drop_last()).insert(ws.last().id, opt_view(ws.last().app_id))
    }
}

/// The last window of a list that reports focus.
pub open spec fn windows_focus(ws: Seq<NiriWindow>) -> Option<u64>
    decreases ws.len(),
{
    if ws.len() == 0 {
        None
    } else if ws.last().is_focused {
        Some(ws.last().id)
    } else {
        windows_focus(ws.drop_last())
    }
}

/// Keeps the identity of each open window, the focused window, and the last
/// change handed out.
pub struct NiriEventReducer {
    apps: HashMap<u64, Option<String>>,
    focused_id: Option<u64>,
    last_emitted: Option<NiriFocusChange>,
}

/// The state of a reducer: identities, focused window, last change handed out.
pub type ReducerView = (AppsView, Option<u64>, Option<ChangeView>);

/// The result of emitting the current change only when it differs from the
/// last one.
pub open spec fn emit_if_changed(apps: AppsView, focused: Option<u64>, last: Option<ChangeView>) -> (ReducerView, Option<ChangeView>) {
    let c = spec_current(apps, focused);
    if last == Some(c) {
        ((apps, focused, last), None)
    } else {
        ((apps, focused, Some(c)), Some(c))
    }
}

/// The result of emitting the current change unconditionally.
pub open spec fn emit_current(apps: AppsView, focused: Option<u64>) -> (ReducerView, Option<ChangeView>) {
    let c = spec_current(apps, focused);
    ((apps, focused, Some(c)), Some(c))
}

/// How one event changes the state, and the change it reports.
pub open spec fn spec_apply(s: ReducerView, e: NiriEvent) -> (ReducerView, Option<ChangeView>) {
    let (apps, focused, last) = s;
    match e {
        NiriEvent::WindowsChanged { windows } => emit_if_changed(windows_map(windows@), windows_focus(windows@), last),
        NiriEvent::WindowOpenedOrChanged { window } => {
            let apps2 = apps.insert(window.id, opt_view(window.app_id));
            let focused2 = if window.is_focused { Some(window.id) } else { focused };
            if focused2 == Some(window.id) {
                emit_if_changed(apps2, focused2, last)
            } else {
                ((apps2, focused2, last), None)
            }
        },
        NiriEvent::WindowClosed { id } => {
            let apps2 = apps.remove(id);
            if focused == Some(id) {
                emit_current(apps2, None)
            } else {
                ((apps2, focused, last), None)
            }
        },
        NiriEvent::WindowFocusChanged { id } => emit_current(apps, id),
        NiriEvent::Other => (s, None),
    }
}

fn copy_text(a: &Option<String>) -> (r: Option<String>)
    ensures
        opt_view(r) == opt_view(*a),
{
    match a {
        Some(s) => Some(s.clone()),
        None => None,
    }
}

fn same_text(a: &Option<String>, b: &Option<String>) -> (r: bool)
    ensures
        r == (opt_view(*a) == opt_view(*b)),
{
    match (a, b) {
        (None, None) => true,
        (Some(x), Some(y)) => str_eq(x.as_str(), y.as_str()),
        _ => false,
    }
}

impl NiriEventReducer {
    /// The state of the reducer.
    pub closed spec fn view(&self) -> ReducerView {
        (
            self.apps@.map_values(|v: Option<String>| opt_view(v)),
            self.focused_id,
            match self.last_emitted {
                Some(c) => Some(change_view(c)),
                None => None,
            },
        )
    }

    /// A reducer that knows no window.
    pub fn new() -> (r: NiriEventReducer)
        ensures
            r.view() == (Map::<u64, Option<Seq<char>>>::empty(), None::<u64>, None::<ChangeView>),
    {
        let r = NiriEventReducer { apps: HashMap::new(), focused_id: None, last_emitted: None };
        proof { assert(r.apps@.map_values(|v: Option<String>| opt_view(v)) =~= Map::<u64, Option<Seq<char>>>::empty()); }
        r
    }

    /// Applies one event and returns the focus change it makes public, if any.
    pub fn apply(&mut self, event: NiriEvent) -> (r: Option<NiriFocusChange>)
        ensures
            final(self).view() == spec_apply(old(self).view(), event).0,
            match r {
                Some(c) => spec_apply(old(self).view(), event).1 == Some(change_view(c)),
                None => spec_apply(old(self).view(), event).1 is None,
            },
    {
        match event {
            NiriEvent::WindowsChanged { windows } => self.replace_windows(windows),
            NiriEvent::WindowOpenedOrChanged { window } => self.upsert_window(window),
            NiriEvent::WindowClosed { id } => self.close_window(id),
            NiriEvent::WindowFocusChanged { id } => {
                self.focused_id = id;
                Some(self.emit_current())
            },
            NiriEvent::Other => None,
        }
    }

    fn replace_windows(&mut self, windows: Vec<NiriWindow>) -> (r: Option<NiriFocusChange>)
        ensures
            final(self).view() == emit_if_changed(windows_map(windows@), windows_focus(windows@), old(self).view().2).0,
            match r {
                Some(c) => emit_if_changed(windows_map(windows@), windows_focus(windows@), old(self).view().2).1 == Some(change_view(c)),
                None => emit_if_changed(windows_map(windows@), windows_focus(windows@), old(self).view().2).1 is None,
            },
    {
        self.apps.clear();
        self.focused_id = None;
        let mut i: usize = 0;
        while i < windows.len()
            invariant
                i <= windows@.len(),
                self.apps@.map_values(|v: Option<String>| opt_view(v)) == windows_map(windows@.take(i as int)),
                self.focused_id == windows_focus(windows@.take(i as int)),
                self.last_emitted == old(self).last_emitted,
            decreases windows@.len() - i,
        {
            let window = &windows[i];
            proof {
                assert(windows@.take(i + 1).drop_last() =~= windows@.take(i as int));
                assert(windows@.take(i + 1).last() == windows@[i as int]);
            }
            if window.is_focused {
                self.focused_id = Some(window.id);
            }
            let ghost before = self.apps@;
            self.apps.insert(window.id, copy_text(&window.app_id));
            proof {
                assert(self.apps@.map_values(|v: Option<String>| opt_view(v)) =~= before.map_values(|v: Option<String>| opt_view(v)).insert(window.id, opt_view(window.app_id)));
            }
            i = i + 1;
        }
        proof {
            assert(windows@.take(windows@.len() as int) =~= windows@);
            if i == 0 {
                assert(self.apps@.map_values(|v: Option<String>| opt_view(v)) =~= Map::<u64, Option<Seq<char>>>::empty());
            }
        }
        self.emit_if_changed()
    }

    fn upsert_window(&mut self, window: NiriWindow) -> (r: Option<NiriFocusChange>)
        ensures
            final(self).view() == spec_apply(old(self).view(), NiriEvent::WindowOpenedOrChanged { window }).0,
            match r {
                Some(c) => spec_apply(old(self).view(), NiriEvent::WindowOpenedOrChanged { window }).1 == Some(change_view(c)),
                None => spec_apply(old(self).view(), NiriEvent::WindowOpenedOrChanged { window }).1 is None,
            },
    {
        let id = window.id;
        let is_focused = window.is_focused;
        let ghost before = self.apps@;
        self.apps.insert(id, copy_text(&window.app_id));
        proof {
            assert(self.apps@.map_values(|v: Option<String>| opt_view(v)) =~= before.map_values(|v: Option<String>| opt_view(v)).insert(id, opt_view(window.app_id)));
        }
        if is_focused {
            self.focused_id = Some(id);
        }
        if self.focused_id == Some(id) {
            self.emit_if_changed()
        } else {
            None
        }
    }

    fn close_window(&mut self, id: u64) -> (r: Option<NiriFocusChange>)
        ensures
            final(self).view() == spec_apply(old(self).view(), NiriEvent::WindowClosed { id }).0,
            match r {
                Some(c) => spec_apply(old(self).view(), NiriEvent::WindowClosed { id }).1 == Some(change_view(c)),
                None => spec_apply(old(self).view(), NiriEvent::WindowClosed { id }).1 is None,
            },
    {
        let ghost before = self.apps@;
        self.apps.remove(&id);
        proof {
            assert(self.apps@.map_values(|v: Option<String>| opt_view(v)) =~= before.map_values(|v: Option<String>| opt_view(v)).remove(id));
        }
        if self.focused_id == Some(id) {
            self.focused_id = None;
            Some(self.emit_current())
        } else {
            None
        }
    }

    fn emit_if_changed(&mut self) -> (r: Option<NiriFocusChange>)
        ensures
            final(self).view() == emit_if_changed(old(self).view().0, old(self).view().1, old(self).view().2).0,
            match r {
                Some(c) => emit_if_changed(old(self).view().0, old(self).view().1, old(self).view().2).1 == Some(change_view(c)),
                None => emit_if_changed(old(self).view().0, old(self).view().1, old(self).view().2).1 is None,
            },
    {
        let change = self.current();
        let same = match &self.last_emitted {
            Some(last) => same_text(&last.app_id, &change.app_id) && same_text(&last.window_key, &change.window_key),
            None => false,
        };
        if same {
            None
        } else {
            self.last_emitted = Some(NiriFocusChange {
                app_id: copy_text(&change.app_id),
                window_key: copy_text(&change.window_key),
            });
            Some(change)
        }
    }

    fn emit_current(&mut self) -> (r: NiriFocusChange)
        ensures
            final(self).view() == emit_current(old(self).view().0, old(self).view().1).0,
            emit_current(old(self).view().0, old(self).view().1).1 == Some(change_view(r)),
    {
        let change = self.current();
        self.last_emitted = Some(NiriFocusChange {
            app_id: copy_text(&change.app_id),
            window_key: copy_text(&change.window_key),
        });
        change
    }

    /// The focused window and its identity, as currently known.
    pub fn current(&self) -> (r: NiriFocusChange)
        ensures
            change_view(r) == spec_current(self.view().0, self.view().1),
    {
        match self.focused_id {
            Some(id) => {
                let app_id = match self.apps.get(&id) {
                    Some(v) => copy_text(v),
                    None => None,
                };
                NiriFocusChange { app_id, window_key: Some(opaque_window_key(id)) }
            },
            None => NiriFocusChange { app_id: None, window_key: None },
        }
    }
}

/// Laws of the focus reduction.
///
/// A change handed out always describes the focused window: its key is that
/// window's key, and its identity is the one last reported for that window.
pub proof fn law_reported_change_describes_focus(s: ReducerView, e: NiriEvent)
    ensures
        spec_apply(s, e).1 matches Some(c) ==> c == spec_current(spec_apply(s, e).0.0, spec_apply(s, e).0.1)
            && spec_apply(s, e).0.2 == Some(c),
{
}

/// The same window snapshot applied twice reports nothing the second time.
pub proof fn law_repeated_snapshot_is_silent(s: ReducerView, windows: Vec<NiriWindow>)
    ensures
        ({
            let e = NiriEvent::WindowsChanged { windows };
            spec_apply(spec_apply(s, e).0, e).1 is None
        }),
{
}

impl Default for NiriEventReducer {
    fn default() -> (r: NiriEventReducer)
        ensures
            r.view() == (Map::<u64, Option<Seq<char>>>::empty(), None::<u64>, None::<ChangeView>),
    {
        NiriEventReducer::new()
    }
}

/// Why the compositor's event stream could not be opened.
#[derive(Clone, Debug, PartialEq, Eq)]
pub enum NiriSourceError {
    /// The compositor refused the stream, with its message.
    Rejected(String),
    /// The compositor answered with something other than acceptance.
    UnexpectedResponse(String),
}

/// The compositor's answer to the event-stream request: accepted when
/// handled; an other answer (given by its text) or a refusal is an error.
pub fn check_stream_reply(reply: Result<Option<String>, String>) -> (r: Result<(), NiriSourceError>)
    ensures
        match reply {
            Ok(None) => r is Ok,
            Ok(Some(text)) => r == Err::<(), NiriSourceError>(NiriSourceError::UnexpectedResponse(text)),
            Err(message) => r == Err::<(), NiriSourceError>(NiriSourceError::Rejected(message)),
        },
{
    match reply {
        Ok(None) => Ok(()),
        Ok(Some(text)) => Err(NiriSourceError::UnexpectedResponse(text)),
        Err(message) => Err(NiriSourceError::Rejected(message)),
    }
}


/// Closing a window that does not have focus changes nothing the collector
/// sees: no change is reported, the focused window and the last change stay,
/// and only the closed window's identity is forgotten. Closing the focused
/// window reports that nothing has focus.
pub proof fn law_closing_a_background_window_keeps_focus(s: ReducerView, id: u64)
    ensures
        s.1 != Some(id) ==> {
            &&& spec_apply(s, NiriEvent::WindowClosed { id }).1 is None
            &&& spec_apply(s, NiriEvent::WindowClosed { id }).0.1 == s.1
            &&& spec_apply(s, NiriEvent::WindowClosed { id }).0.2 == s.2
            &&& spec_apply(s, NiriEvent::WindowClosed { id }).0.0 == s.0.remove(id)
        },
        s.1 == Some(id) ==> {
            &&& spec_apply(s, NiriEvent::WindowClosed { id }).1 == Some((None::<Seq<char>>, None::<Seq<char>>))
            &&& spec_apply(s, NiriEvent::WindowClosed { id }).0.1 is None
        },
{
}


/// A focus change always reports the window that now has focus: its last
/// known identity and its opaque key, or nothing when no window has focus;
/// the identities of the windows are kept.
pub proof fn law_focus_change_reports_the_focused_window(s: ReducerView, id: Option<u64>)
    ensures
        spec_apply(s, NiriEvent::WindowFocusChanged { id }).0.1 == id,
        spec_apply(s, NiriEvent::WindowFocusChanged { id }).0.0 == s.0,
        spec_apply(s, NiriEvent::WindowFocusChanged { id }).1 == Some(match id {
            Some(w) => (if s.0.contains_key(w) { s.0[w] } else { None::<Seq<char>> }, Some(spec_window_key(w))),
            None => (None::<Seq<char>>, None::<Seq<char>>),
        }),
{
}

} // verus!
