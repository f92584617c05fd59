//! Focus tracking: which application has the focus, and for how long.
//!
//! Focus events come from the Wayland wlr-foreign-toplevel protocol or, as a
//! fallback, from polling GNOME Shell / KDE KWin over D-Bus. The decisions
//! made on each event are here; the listeners and the storage are outside.
use vstd::prelude::*;

use crate::error::CollectorError;
use crate::util::sat_sub;
use crate::gpu::fdinfo::{after, has_prefix, has_suffix};
use crate::text::{
    chars_of, copy_range, ends_with, split, split_chars, starts_with, string_of, views,
};

verus! {

// ---------------------------------------------------------------------------
// Application identifiers
// ---------------------------------------------------------------------------

/// The application name for a compositor app ID: `org.flatpak.X` becomes
/// `X`, `snap.a.b` becomes its last dot-separated component `b`, an empty or
/// missing ID becomes `Unknown`, anything else is kept.
pub open spec fn normalize_spec(raw: Option<Seq<char>>) -> Seq<char> {
    match raw {
        Some(s) => if s.len() == 0 {
            "Unknown"@
        } else if has_prefix(s, "org.flatpak."@) {
            after(s, "org.flatpak."@.len() as int)
        } else if has_prefix(s, "snap."@) {
            split(after(s, "snap."@.len() as int), '.').last()
        } else {
            s
        },
        None => "Unknown"@,
    }
}

/// Normalizes an app ID from the Wayland compositor.
pub fn normalize_app_id(raw: Option<String>) -> (r: String)
    ensures
        r@ == normalize_spec(
            match raw {
                Some(s) => Some(s@),
                None => None,
            },
        ),
{
    match raw {
        None => string_of(chars_of("Unknown").as_slice()),
        Some(s) => {
            let cs = chars_of(s.as_str());
            if cs.len() == 0 {
                return string_of(chars_of("Unknown").as_slice());
            }
            let flatpak = chars_of("org.flatpak.");
            let snap = chars_of("snap.");
            if starts_with(cs.as_slice(), flatpak.as_slice()) {
                return string_of(copy_range(cs.as_slice(), flatpak.len(), cs.len()).as_slice());
            }
            if starts_with(cs.as_slice(), snap.as_slice()) {
                let rest = copy_range(cs.as_slice(), snap.len(), cs.len());
                let parts = split_chars(rest.as_slice(), '.');
                proof {
                    crate::text::lemma_split_nonempty(rest@, '.');
                }
                assert(views(parts@).last() == parts@[parts@.len() - 1]@);
                return string_of(parts[parts.len() - 1].as_slice());
            }
            s
        },
    }
}

// ---------------------------------------------------------------------------
// Source selection
// ---------------------------------------------------------------------------

/// The source of focus events.
#[derive(Debug, Clone, Copy, PartialEq, Eq, Structural)]
pub enum FocusSource {
    WlrToplevel,
    GnomeDbus,
}

/// Collects focus time data from the compositor.
#[derive(Debug, Clone, Copy, PartialEq, Eq, Structural)]
pub struct FocusCollector {
    pub source: FocusSource,
}

/// Check if GNOME D-Bus is accessible. The connection is made, and may fail,
/// only when the listener starts, so this check always succeeds.
pub fn try_gnome_dbus_available() -> (r: Result<(), CollectorError>)
    ensures
        r is Ok,
{
    Ok(())
}

impl FocusCollector {
    /// Creates a focus collector: the wlr-foreign-toplevel source when the
    /// compositor offers it (`wlr_available`), else the GNOME D-Bus fallback.
    pub fn try_new(wlr_available: bool) -> (r: Option<Self>)
        ensures
            r == Some(
                FocusCollector {
                    source: if wlr_available {
                        FocusSource::WlrToplevel
                    } else {
                        FocusSource::GnomeDbus
                    },
                },
            ),
    {
        if wlr_available {
            return Some(FocusCollector { source: FocusSource::WlrToplevel });
        }
        match try_gnome_dbus_available() {
            Ok(_) => Some(FocusCollector { source: FocusSource::GnomeDbus }),
            Err(_) => None,
        }
    }
}

// ---------------------------------------------------------------------------
// Focus sessions
// ---------------------------------------------------------------------------

/// The focused application and when (in milliseconds of a monotonic clock)
/// it gained the focus.
pub ghost struct FocusView {
    pub current_app: Option<Seq<char>>,
    pub focus_start_ms: u64,
}

/// A focus change to `app` at `now`: nothing happens when `app` already has
/// the focus; otherwise the previous application's session (if any) ends with
/// the time it lasted, and `app`'s session starts.
pub open spec fn focus_switch(st: FocusView, app: Seq<char>, now: u64) -> (FocusView, Option<
    (Seq<char>, u64),
>) {
    if st.current_app == Some(app) {
        (st, None)
    } else {
        (
            FocusView { current_app: Some(app), focus_start_ms: now },
            match st.current_app {
                Some(p) => Some((p, sat_sub(now, st.focus_start_ms))),
                None => None,
            },
        )
    }
}

/// The session that ends when tracking stops at `now`.
pub open spec fn focus_close(st: FocusView, now: u64) -> Option<(Seq<char>, u64)> {
    match st.current_app {
        Some(p) => Some((p, sat_sub(now, st.focus_start_ms))),
        None => None,
    }
}

/// In-memory state tracking the currently focused application.
pub struct FocusState {
    pub current_app: Option<String>,
    pub focus_start_ms: u64,
}

impl View for FocusState {
    type V = FocusView;

    open spec fn view(&self) -> FocusView {
        FocusView {
            current_app: match self.current_app {
                Some(a) => Some(a@),
                None => None,
            },
            focus_start_ms: self.focus_start_ms,
        }
    }
}

/// What the focus tracker is told.
pub enum FocusEvent {
    /// The compositor reports the focused app ID (raw, not normalized).
    Focus { raw_id: Option<String>, now_ms: u64 },
    /// The daemon shuts down.
    Shutdown { now_ms: u64 },
    /// The listener task ended.
    ListenerFailed { now_ms: u64 },
}

/// A finished focus session to persist.
pub struct FocusFlush {
    pub app_name: String,
    pub elapsed_ms: u64,
}

/// What the tracker does on an event: the session to persist, if any, and
/// whether tracking stops.
pub struct FocusStep {
    pub flush: Option<FocusFlush>,
    pub stop: bool,
}

pub open spec fn flush_view(f: Option<FocusFlush>) -> Option<(Seq<char>, u64)> {
    match f {
        Some(x) => Some((x.app_name@, x.elapsed_ms)),
        None => None,
    }
}

impl FocusState {
    /// No application focused yet.
    pub fn new(now_ms: u64) -> (st: Self)
        ensures
            st@ == (FocusView { current_app: None, focus_start_ms: now_ms }),
    {
        FocusState { current_app: None, focus_start_ms: now_ms }
    }

    /// Handles one event of the focus tracking loop.
    pub fn on_event(&mut self, event: FocusEvent) -> (r: FocusStep)
        ensures
            match event {
                FocusEvent::Focus { raw_id, now_ms } => {
                    let (next, flush) = focus_switch(
                        old(self)@,
                        normalize_spec(
                            match raw_id {
                                Some(s) => Some(s@),
                                None => None,
                            },
                        ),
                        now_ms,
                    );
                    &&& final(self)@ == next
                    &&& flush_view(r.flush) == flush
                    &&& !r.stop
                },
                FocusEvent::Shutdown { now_ms } => {
                    &&& final(self)@ == old(self)@
                    &&& flush_view(r.flush) == focus_close(old(self)@, now_ms)
                    &&& r.stop
                },
                FocusEvent::ListenerFailed { now_ms } => {
                    &&& final(self)@ == old(self)@
                    &&& flush_view(r.flush) == focus_close(old(self)@, now_ms)
                    &&& r.stop
                },
            },
    {
        match event {
            FocusEvent::Focus { raw_id, now_ms } => {
                let new_app = normalize_app_id(raw_id);
                let same = match &self.current_app {
                    Some(a) => *a == new_app,
                    None => false,
                };
                if same {
                    return FocusStep { flush: None, stop: false };
                }
                let flush = match &self.current_app {
                    Some(a) => Some(
                        FocusFlush {
                            app_name: a.clone(),
                            elapsed_ms: now_ms.saturating_sub(self.focus_start_ms),
                        },
                    ),
                    None => None,
                };
                self.current_app = Some(new_app);
                self.focus_start_ms = now_ms;
                FocusStep { flush, stop: false }
            },
            FocusEvent::Shutdown { now_ms } => FocusStep { flush: self.close(now_ms), stop: true },
            FocusEvent::ListenerFailed { now_ms } => FocusStep {
                flush: self.close(now_ms),
                stop: true,
            },
        }
    }

    fn close(&self, now_ms: u64) -> (r: Option<FocusFlush>)
        ensures
            flush_view(r) == focus_close(self@, now_ms),
    {
        match &self.current_app {
            Some(a) => Some(
                FocusFlush {
                    app_name: a.clone(),
                    elapsed_ms: now_ms.saturating_sub(self.focus_start_ms),
                },
            ),
            None => None,
        }
    }
}

/// The state after a sequence of focus changes `(app, time)`, with the total
/// time of the sessions they ended.
pub open spec fn run_switches(st: FocusView, evs: Seq<(Seq<char>, u64)>) -> (FocusView, nat)
    decreases evs.len(),
{
    if evs.len() == 0 {
        (st, 0)
    } else {
        let (s1, total) = run_switches(st, evs.drop_last());
        let (s2, f) = focus_switch(s1, evs.last().0, evs.last().1);
        (
            s2,
            total + match f {
                Some(x) => x.1 as nat,
                None => 0,
            },
        )
    }
}

/// Whether the event times never go backwards and start no earlier than `t0`.
pub open spec fn times_ordered(t0: u64, evs: Seq<(Seq<char>, u64)>) -> bool {
    &&& forall|i: int| 0 <= i < evs.len() ==> t0 <= (#[trigger] evs[i]).1
    &&& forall|i: int, j: int| 0 <= i < j < evs.len() ==> (#[trigger] evs[i]).1 <= (#[trigger] evs[j]).1
}

proof fn lemma_run_switches(st: FocusView, evs: Seq<(Seq<char>, u64)>)
    requires
        st.current_app is Some,
        times_ordered(st.focus_start_ms, evs),
    ensures
        run_switches(st, evs).0.current_app is Some,
        run_switches(st, evs).0.focus_start_ms <= (if evs.len() > 0 {
            evs.last().1
        } else {
            st.focus_start_ms
        }),
        st.focus_start_ms <= run_switches(st, evs).0.focus_start_ms,
        run_switches(st, evs).1 == run_switches(st, evs).0.focus_start_ms - st.focus_start_ms,
    decreases evs.len(),
{
    if evs.len() > 0 {
        let prefix = evs.drop_last();
        assert(times_ordered(st.focus_start_ms, prefix)) by {
            assert forall|i: int| 0 <= i < prefix.len() implies st.focus_start_ms <= (
            #[trigger] prefix[i]).1 by {
                assert(prefix[i] == evs[i]);
            }
            assert forall|i: int, j: int| 0 <= i < j < prefix.len() implies (
            #[trigger] prefix[i]).1 <= (#[trigger] prefix[j]).1 by {
                assert(prefix[i] == evs[i]);
                assert(prefix[j] == evs[j]);
            }
        }
        lemma_run_switches(st, prefix);
        if prefix.len() > 0 {
            assert(prefix.last() == evs[evs.len() - 2]);
            assert(evs[evs.len() - 2].1 <= evs[evs.len() - 1].1);
        }
        assert(st.focus_start_ms <= evs[evs.len() - 1].1);
    }
}

/// Law: focus time is neither lost nor counted twice. From an open session,
/// after any sequence of focus changes at non-decreasing times, the sessions
/// that ended plus the one still open at time `t` add up to the time from the
/// first session's start to `t`.
pub proof fn law_focus_time_conserved(st: FocusView, evs: Seq<(Seq<char>, u64)>, t: u64)
    requires
        st.current_app is Some,
        times_ordered(st.focus_start_ms, evs),
        forall|i: int| 0 <= i < evs.len() ==> (#[trigger] evs[i]).1 <= t,
        st.focus_start_ms <= t,
    ensures
        run_switches(st, evs).0.current_app is Some,
        run_switches(st, evs).1 + (t - run_switches(st, evs).0.focus_start_ms) == t
            - st.focus_start_ms,
{
    lemma_run_switches(st, evs);
    if evs.len() > 0 {
        assert(evs.last() == evs[evs.len() - 1]);
    }
}

/// Law: when the focused application regains the focus, nothing is ended
/// and the state does not change.
pub proof fn law_refocus_is_no_op(st: FocusView, now: u64)
    requires
        st.current_app is Some,
    ensures
        focus_switch(st, st.current_app->0, now) == (st, None::<(Seq<char>, u64)>),
{
}

/// Law: a snap ID `snap.` + `r` names the application by the text of `r`
/// after its last `.`: a suffix of `r` that holds no `.`, and which is all of
/// `r` or follows a `.` in it.
pub proof fn law_snap_id_keeps_last_component(r: Seq<char>)
    ensures
        ({
            let n = normalize_spec(Some("snap."@ + r));
            &&& n.len() <= r.len()
            &&& r.subrange(r.len() - n.len(), r.len() as int) == n
            &&& forall|k: int| 0 <= k < n.len() ==> n[k] != '.'
            &&& n.len() < r.len() ==> r[r.len() - n.len() - 1] == '.'
        }),
{
    reveal_strlit("snap.");
    reveal_strlit("org.flatpak.");
    let s = "snap."@ + r;
    assert(s[0] == 's');
    assert(!has_prefix(s, "org.flatpak."@)) by {
        if has_prefix(s, "org.flatpak."@) {
            assert(s.subrange(0, 12)[0] == 'o');
        }
    }
    assert(s.subrange(0, 5) =~= "snap."@);
    assert(after(s, 5) =~= r);
    crate::text::lemma_split_last(r, '.');
}

/// Law: a Flatpak ID `org.flatpak.` + `r` names the application `r`; a
/// missing or empty ID names `Unknown`; an ID that is neither a Flatpak nor
/// a snap ID is kept as it is.
pub proof fn law_app_id_normalization(r: Seq<char>, other: Seq<char>)
    requires
        other.len() > 0,
        !has_prefix(other, "org.flatpak."@),
        !has_prefix(other, "snap."@),
    ensures
        normalize_spec(Some("org.flatpak."@ + r)) == r,
        normalize_spec(None) == "Unknown"@,
        normalize_spec(Some(Seq::<char>::empty())) == "Unknown"@,
        normalize_spec(Some(other)) == other,
{
    reveal_strlit("org.flatpak.");
    let s = "org.flatpak."@ + r;
    assert(s.subrange(0, 12) =~= "org.flatpak."@);
    assert(after(s, 12) =~= r);
}

/// Law: a KDE desktop file name `r.desktop` names the application `r`.
pub proof fn law_kde_strips_desktop_suffix(r: Seq<char>)
    ensures
        kde_app_spec(r + ".desktop"@) == Some(r),
{
    reveal_strlit(".desktop");
    let name = r + ".desktop"@;
    assert(name.subrange(name.len() - 8, name.len() as int) =~= ".desktop"@);
    assert(name.subrange(0, name.len() - 8) =~= r);
}

/// Law: a KDE desktop file name without the `.desktop` suffix names the
/// application by itself, and an empty one names none.
pub proof fn law_kde_keeps_other_names(name: Seq<char>)
    requires
        !has_suffix(name, ".desktop"@),
    ensures
        kde_app_spec(name) == (if name.len() > 0 {
            Some(name)
        } else {
            None
        }),
{
}

// ---------------------------------------------------------------------------
// wlr-foreign-toplevel tracking
// ---------------------------------------------------------------------------

/// The value of the little-endian 32-bit word at byte `k`.
pub open spec fn le_u32(b: Seq<u8>, k: int) -> nat {
    b[k] as nat + b[k + 1] as nat * 256 + b[k + 2] as nat * 65536 + b[k + 3] as nat * 16777216
}

/// The protocol's `activated` toplevel state.
pub const STATE_ACTIVATED: u32 = 2;

/// Whether a toplevel state array (4-byte little-endian words; a trailing
/// partial word is ignored) holds the `activated` state.
pub open spec fn activated_spec(b: Seq<u8>) -> bool {
    exists|k: int| 0 <= k < b.len() / 4 && #[trigger] word_at(b, k) == STATE_ACTIVATED
}

/// The `k`-th 32-bit word of a state array.
pub open spec fn word_at(b: Seq<u8>, k: int) -> nat {
    le_u32(b, 4 * k)
}

/// Decodes a toplevel state array and tells whether it says `activated`.
pub fn state_is_activated(bytes: &[u8]) -> (r: bool)
    ensures
        r == activated_spec(bytes@),
{
    let len = bytes.len();
    let n = len / 4;
    let mut k: usize = 0;
    while k < n
        invariant
            k <= n,
            len == bytes@.len(),
            n == len / 4,
            forall|j: int| 0 <= j < k ==> word_at(bytes@, j) != STATE_ACTIVATED,
        decreases n - k,
    {
        let o = 4 * k;
        let v: u64 = bytes[o] as u64 + bytes[o + 1] as u64 * 256 + bytes[o + 2] as u64 * 65536
            + bytes[o + 3] as u64 * 16777216;
        assert(v as nat == word_at(bytes@, k as int));
        if v == STATE_ACTIVATED as u64 {
            return true;
        }
        k = k + 1;
    }
    false
}

/// What is known of one toplevel window.
#[derive(Debug)]
pub struct ToplevelInfo {
    pub app_id: Option<String>,
    pub is_activated: bool,
}

pub ghost struct ToplevelView {
    pub app_id: Option<Seq<char>>,
    pub is_activated: bool,
}

impl View for ToplevelInfo {
    type V = ToplevelView;

    open spec fn view(&self) -> ToplevelView {
        ToplevelView {
            app_id: match self.app_id {
                Some(a) => Some(a@),
                None => None,
            },
            is_activated: self.is_activated,
        }
    }
}

/// The toplevel windows the compositor announced, by protocol object id.
pub struct ToplevelTracker {
    pub entries: Vec<(u32, ToplevelInfo)>,
}

/// What is recorded for `id`, if anything.
pub open spec fn tl_lookup(es: Seq<(u32, ToplevelInfo)>, id: u32) -> Option<ToplevelView>
    decreases es.len(),
{
    if es.len() == 0 {
        None
    } else if es.last().0 == id {
        Some(es.last().1@)
    } else {
        tl_lookup(es.drop_last(), id)
    }
}

proof fn lemma_tl_lookup_index(es: Seq<(u32, ToplevelInfo)>, id: u32)
    requires
        forall|i: int, j: int| 0 <= i < j < es.len() ==> es[i].0 != es[j].0,
    ensures
        forall|i: int| 0 <= i < es.len() && es[i].0 == id ==> tl_lookup(es, id) == Some(es[i].1@),
        (forall|i: int| 0 <= i < es.len() ==> es[i].0 != id) ==> tl_lookup(es, id) is None,
    decreases es.len(),
{
    if es.len() > 0 {
        lemma_tl_lookup_index(es.drop_last(), id);
        assert forall|i: int| 0 <= i < es.len() && es[i].0 == id implies tl_lookup(es, id) == Some(
            es[i].1@,
        ) by {
            if i < es.len() - 1 {
                assert(es.drop_last()[i] == es[i]);
            }
        }
        if forall|i: int| 0 <= i < es.len() ==> es[i].0 != id {
            assert forall|i: int| 0 <= i < es.drop_last().len() implies es.drop_last()[i].0 != id by {
                assert(es.drop_last()[i] == es[i]);
            }
        }
    }
}

impl ToplevelTracker {
    /// Whether no id is recorded twice.
    pub open spec fn wf(&self) -> bool {
        forall|i: int, j: int| 0 <= i < j < self.entries@.len() ==> self.entries@[i].0 != self.entries@[j].0
    }

    /// The window recorded for `id`.
    pub open spec fn lookup(&self, id: u32) -> Option<ToplevelView> {
        tl_lookup(self.entries@, id)
    }

    /// No window known yet.
    pub fn new() -> (t: Self)
        ensures
            t.wf(),
            forall|id: u32| t.lookup(id) is None,
    {
        ToplevelTracker { entries: Vec::new() }
    }

    fn index_of(&self, id: u32) -> (r: Option<usize>)
        requires
            self.wf(),
        ensures
            match r {
                Some(i) => i < self.entries@.len() && self.entries@[i as int].0 == id,
                None => forall|i: int| 0 <= i < self.entries@.len() ==> self.entries@[i].0 != id,
            },
    {
        let mut i: usize = 0;
        while i < self.entries.len()
            invariant
                i <= self.entries@.len(),
                forall|k: int| 0 <= k < i ==> self.entries@[k].0 != id,
            decreases self.entries.len() - i,
        {
            if self.entries[i].0 == id {
                return Some(i);
            }
            i = i + 1;
        }
        None
    }

    /// A new toplevel was announced: it is recorded with no app ID and not
    /// activated (replacing anything recorded for its id).
    pub fn on_toplevel(&mut self, id: u32)
        requires
            old(self).wf(),
        ensures
            final(self).wf(),
            final(self).lookup(id) == Some(ToplevelView { app_id: None, is_activated: false }),
            forall|x: u32| x != id ==> final(self).lookup(x) == old(self).lookup(x),
    {
        let fresh = ToplevelInfo { app_id: None, is_activated: false };
        match self.index_of(id) {
            Some(i) => {
                self.entries.set(i, (id, fresh));
                assert(self.entries@[i as int].0 == id);
                assert(self.entries@[i as int].1@ == ToplevelView { app_id: None, is_activated: false });
            },
            None => {
                self.entries.push((id, fresh));
                assert(self.entries@[self.entries@.len() - 1].0 == id);
                assert(self.entries@[self.entries@.len() - 1].1@ == ToplevelView {
                    app_id: None,
                    is_activated: false,
                });
            },
        }
        proof {
            lemma_tl_lookup_index(self.entries@, id);
            assert forall|x: u32| x != id implies self.lookup(x) == old(self).lookup(x) by {
                lemma_tl_lookup_index(self.entries@, x);
                lemma_tl_lookup_index(old(self).entries@, x);
                if exists|k: int| 0 <= k < old(self).entries@.len() && old(self).entries@[k].0 == x {
                    let k = choose|k: int|
                        0 <= k < old(self).entries@.len() && old(self).entries@[k].0 == x;
                    assert(self.entries@[k] == old(self).entries@[k]);
                } else {
                    assert forall|k: int| 0 <= k < self.entries@.len() implies self.entries@[k].0
                        != x by {
                        if k < old(self).entries@.len() {
                            assert(old(self).entries@[k].0 != x);
                        }
                    }
                }
            }
        }
    }

    fn update_entry(&mut self, i: usize, info: ToplevelInfo)
        requires
            old(self).wf(),
            i < old(self).entries@.len(),
        ensures
            final(self).wf(),
            final(self).lookup(old(self).entries@[i as int].0) == Some(info@),
            forall|x: u32| x != old(self).entries@[i as int].0 ==> final(self).lookup(x) == old(
                self,
            ).lookup(x),
    {
        let id = self.entries[i].0;
        let ghost iv = info@;
        self.entries.set(i, (id, info));
        assert(self.entries@[i as int].0 == id);
        assert(self.entries@[i as int].1@ == iv);
        proof {
            lemma_tl_lookup_index(self.entries@, id);
            assert forall|x: u32| x != id implies self.lookup(x) == old(self).lookup(x) by {
                lemma_tl_lookup_index(self.entries@, x);
                lemma_tl_lookup_index(old(self).entries@, x);
                if exists|k: int| 0 <= k < old(self).entries@.len() && old(self).entries@[k].0 == x {
                    let k = choose|k: int|
                        0 <= k < old(self).entries@.len() && old(self).entries@[k].0 == x;
                    assert(self.entries@[k] == old(self).entries@[k]);
                }
            }
        }
    }

    /// The compositor told a window's app ID.
    pub fn on_app_id(&mut self, id: u32, app_id: String)
        requires
            old(self).wf(),
        ensures
            final(self).wf(),
            final(self).lookup(id) == match old(self).lookup(id) {
                Some(v) => Some(ToplevelView { app_id: Some(app_id@), ..v }),
                None => None,
            },
            forall|x: u32| x != id ==> final(self).lookup(x) == old(self).lookup(x),
    {
        proof {
            lemma_tl_lookup_index(self.entries@, id);
        }
        match self.index_of(id) {
            Some(i) => {
                let activated = self.entries[i].1.is_activated;
                self.update_entry(i, ToplevelInfo { app_id: Some(app_id), is_activated: activated });
            },
            None => {},
        }
    }

    /// The compositor told a window's state array.
    pub fn on_state(&mut self, id: u32, state: &[u8])
        requires
            old(self).wf(),
        ensures
            final(self).wf(),
            final(self).lookup(id) == match old(self).lookup(id) {
                Some(v) => Some(ToplevelView { is_activated: activated_spec(state@), ..v }),
                None => None,
            },
            forall|x: u32| x != id ==> final(self).lookup(x) == old(self).lookup(x),
    {
        proof {
            lemma_tl_lookup_index(self.entries@, id);
        }
        let activated = state_is_activated(state);
        match self.index_of(id) {
            Some(i) => {
                let app_id = match &self.entries[i].1.app_id {
                    Some(a) => Some(a.clone()),
                    None => None,
                };
                self.update_entry(i, ToplevelInfo { app_id, is_activated: activated });
            },
            None => {},
        }
    }

    /// The compositor committed a window's properties: when the window is
    /// activated, its app ID (possibly none) is the focus to report.
    pub fn on_done(&self, id: u32) -> (r: Option<Option<String>>)
        requires
            self.wf(),
        ensures
            match self.lookup(id) {
                Some(v) => if v.is_activated {
                    r matches Some(a) && match a {
                        Some(s) => v.app_id == Some(s@),
                        None => v.app_id is None,
                    }
                } else {
                    r is None
                },
                None => r is None,
            },
    {
        proof {
            lemma_tl_lookup_index(self.entries@, id);
        }
        match self.index_of(id) {
            Some(i) => {
                if self.entries[i].1.is_activated {
                    match &self.entries[i].1.app_id {
                        Some(a) => Some(Some(a.clone())),
                        None => Some(None),
                    }
                } else {
                    None
                }
            },
            None => None,
        }
    }

    /// The window was closed: it is forgotten.
    pub fn on_closed(&mut self, id: u32)
        requires
            old(self).wf(),
        ensures
            final(self).wf(),
            final(self).lookup(id) is None,
            forall|x: u32| x != id ==> final(self).lookup(x) == old(self).lookup(x),
    {
        match self.index_of(id) {
            Some(i) => {
                let ghost before = self.entries@;
                let _ = self.entries.remove(i);
                proof {
                    assert(self.entries@ =~= before.remove(i as int));
                    assert forall|a: int, b: int|
                        0 <= a < b < self.entries@.len() implies self.entries@[a].0
                        != self.entries@[b].0 by {
                        let a2 = if a < i {
                            a
                        } else {
                            a + 1
                        };
                        let b2 = if b < i {
                            b
                        } else {
                            b + 1
                        };
                        assert(self.entries@[a] == before[a2]);
                        assert(self.entries@[b] == before[b2]);
                    }
                    lemma_tl_lookup_index(self.entries@, id);
                    assert forall|k: int| 0 <= k < self.entries@.len() implies self.entries@[k].0
                        != id by {
                        let k2 = if k < i {
                            k
                        } else {
                            k + 1
                        };
                        assert(self.entries@[k] == before[k2]);
                    }
                    assert forall|x: u32| x != id implies self.lookup(x) == old(self).lookup(x) by {
                        lemma_tl_lookup_index(self.entries@, x);
                        lemma_tl_lookup_index(before, x);
                        if exists|k: int| 0 <= k < before.len() && before[k].0 == x {
                            let k = choose|k: int| 0 <= k < before.len() && before[k].0 == x;
                            assert(k != i);
                            let k1 = if k < i {
                                k
                            } else {
                                k - 1
                            };
                            assert(self.entries@[k1] == before[k]);
                        } else {
                            assert forall|k: int| 0 <= k < self.entries@.len() implies self.entries@[k].0
                                != x by {
                                let k2 = if k < i {
                                    k
                                } else {
                                    k + 1
                                };
                                assert(self.entries@[k] == before[k2]);
                            }
                        }
                    }
                }
            },
            None => {
                proof {
                    lemma_tl_lookup_index(self.entries@, id);
                }
            },
        }
    }
}

// ---------------------------------------------------------------------------
// D-Bus polling (GNOME Shell, KDE KWin)
// ---------------------------------------------------------------------------

/// GNOME Shell's `FocusApp`: an empty value means no focused application.
pub fn gnome_focus_app(app_id: String) -> (r: Option<String>)
    ensures
        match r {
            Some(s) => app_id@.len() > 0 && s@ == app_id@,
            None => app_id@.len() == 0,
        },
{
    if app_id.as_str().is_empty() {
        None
    } else {
        Some(app_id)
    }
}

/// The application of a KDE window from its `desktopFileName`: without a
/// trailing `.desktop`; an empty name means none.
pub open spec fn kde_app_spec(name: Seq<char>) -> Option<Seq<char>> {
    if has_suffix(name, ".desktop"@) {
        Some(name.subrange(0, name.len() - 8))
    } else if name.len() > 0 {
        Some(name)
    } else {
        None
    }
}

/// Get the app ID of a KDE window from its desktop file name.
pub fn kde_window_app(app_name: String) -> (r: Option<String>)
    ensures
        match r {
            Some(s) => kde_app_spec(app_name@) == Some(s@),
            None => kde_app_spec(app_name@) is None,
        },
{
    let cs = chars_of(app_name.as_str());
    let suffix = chars_of(".desktop");
    proof {
        reveal_strlit(".desktop");
    }
    if ends_with(cs.as_slice(), suffix.as_slice()) {
        Some(string_of(copy_range(cs.as_slice(), 0, cs.len() - 8).as_slice()))
    } else if cs.len() > 0 {
        Some(app_name)
    } else {
        None
    }
}

/// The active application: GNOME Shell's answer, else KDE's.
pub fn active_window_app(gnome: Option<String>, kde: Option<String>) -> (r: Option<String>)
    ensures
        r == match gnome {
            Some(g) => Some(g),
            None => kde,
        },
{
    match gnome {
        Some(g) => Some(g),
        None => kde,
    }
}

/// Remembers the last application reported while polling over D-Bus.
pub struct FocusPoller {
    pub last_app_id: Option<String>,
}

pub open spec fn opt_str_view(o: Option<String>) -> Option<Seq<char>> {
    match o {
        Some(s) => Some(s@),
        None => None,
    }
}

impl FocusPoller {
    pub fn new() -> (p: Self)
        ensures
            p.last_app_id is None,
    {
        FocusPoller { last_app_id: None }
    }

    /// One poll: the active application is reported only when it changed.
    pub fn observe(&mut self, current: Option<String>) -> (r: Option<Option<String>>)
        ensures
            opt_str_view(final(self).last_app_id) == opt_str_view(current),
            if opt_str_view(current) == opt_str_view(old(self).last_app_id) {
                r is None
            } else {
                r matches Some(c) && opt_str_view(c) == opt_str_view(current)
            },
    {
        let same = match (&current, &self.last_app_id) {
            (Some(a), Some(b)) => *a == *b,
            (None, None) => true,
            _ => false,
        };
        if same {
            return None;
        }
        let sent = match &current {
            Some(a) => Some(a.clone()),
            None => None,
        };
        self.last_app_id = current;
        Some(sent)
    }
}

} // verus!
