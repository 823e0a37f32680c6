//! Renderer selection and the low-overhead rendering diagnostics.
//!
//! The renderer is chosen from the `EDEN_RENDERER` setting; diagnostics are
//! counted only when `EDEN_DIAGNOSTICS` turns them on. The environment, the
//! clock and the printing stay with the caller: this module takes the values
//! read and decides.
use vstd::prelude::*;

use crate::text::{
    ascii_lower, chars_of, lemma_lex_order_antisymmetric, lemma_lex_order_transitive,
    lex_compare, lex_order, to_ascii_lowercase, trim, trimmed_of,
};

verus! {

/// The renderer the user asked for.
#[derive(Clone, Copy, Debug, PartialEq, Eq, Structural)]
pub enum RendererRequest {
    Auto,
    Wgpu,
    Glow,
}

/// A rendering backend.
#[derive(Clone, Copy, Debug, PartialEq, Eq, Structural)]
pub enum Renderer {
    Wgpu,
    Glow,
}

/// The renderer asked for and the one chosen.
#[derive(Clone, Copy, Debug, PartialEq, Eq, Structural)]
pub struct RendererSelection {
    pub request: RendererRequest,
    pub selected: Renderer,
}

impl RendererSelection {
    /// The chosen renderer.
    pub fn renderer(self) -> (r: Renderer)
        ensures
            r == self.selected,
    {
        self.selected
    }

    /// Whether a failed start may be retried with glow: only when the request
    /// was automatic and wgpu was chosen.
    pub fn can_fallback(self) -> (b: bool)
        ensures
            b == may_fall_back(self),
    {
        match (self.request, self.selected) {
            (RendererRequest::Auto, Renderer::Wgpu) => true,
            _ => false,
        }
    }
}

/// Whether a failed start with this selection may be retried with glow.
pub open spec fn may_fall_back(s: RendererSelection) -> bool {
    s.request is Auto && s.selected is Wgpu
}

/// The setting text as it is matched: trimmed, then ASCII-lower-cased.
pub open spec fn normalized_setting(raw: Seq<char>) -> Seq<char> {
    trimmed_of(raw).map_values(|c: char| ascii_lower(c))
}

/// Trims a setting value and lower-cases its ASCII letters.
pub fn normalize_setting(raw: &str) -> (r: String)
    ensures
        r@ == normalized_setting(raw@),
{
    let t = trim(raw);
    to_ascii_lowercase(t)
}

/// The request a normalized `EDEN_RENDERER` value names: "auto" or the empty
/// text give `Auto`, "wgpu" gives `Wgpu`, "glow" gives `Glow`; any other text
/// names none.
pub open spec fn request_named(t: Seq<char>) -> Option<RendererRequest> {
    if t == seq!['a', 'u', 't', 'o'] || t.len() == 0 {
        Some(RendererRequest::Auto)
    } else if t == seq!['w', 'g', 'p', 'u'] {
        Some(RendererRequest::Wgpu)
    } else if t == seq!['g', 'l', 'o', 'w'] {
        Some(RendererRequest::Glow)
    } else {
        None
    }
}

fn chars_equal(a: &Vec<char>, b: &Vec<char>) -> (r: bool)
    ensures
        r == (a@ == b@),
{
    if a.len() != b.len() {
        return false;
    }
    let mut i: usize = 0;
    while i < a.len()
        invariant
            a@.len() == b@.len(),
            i <= a@.len(),
            forall|k: int| 0 <= k < i ==> a@[k] == b@[k],
        decreases a.len() - i,
    {
        if a[i] != b[i] {
            return false;
        }
        i = i + 1;
    }
    assert(a@ =~= b@);
    true
}

fn word4(a: char, b: char, c: char, d: char) -> (v: Vec<char>)
    ensures
        v@ == seq![a, b, c, d],
{
    let v = vec![a, b, c, d];
    assert(v@ =~= seq![a, b, c, d]);
    v
}

/// The request a normalized setting text names, if any.
pub fn request_from_text(text: &str) -> (r: Option<RendererRequest>)
    ensures
        r == request_named(text@),
{
    let t = chars_of(text);
    if t.len() == 0 || chars_equal(&t, &word4('a', 'u', 't', 'o')) {
        Some(RendererRequest::Auto)
    } else if chars_equal(&t, &word4('w', 'g', 'p', 'u')) {
        Some(RendererRequest::Wgpu)
    } else if chars_equal(&t, &word4('g', 'l', 'o', 'w')) {
        Some(RendererRequest::Glow)
    } else {
        None
    }
}

/// The request an `EDEN_RENDERER` value gives: an unset variable asks for
/// `Auto`, as does a value naming no renderer (which the caller reports).
pub open spec fn request_for_setting(raw: Option<Seq<char>>) -> RendererRequest {
    match raw {
        None => RendererRequest::Auto,
        Some(r) => match request_named(normalized_setting(r)) {
            Some(q) => q,
            None => RendererRequest::Auto,
        },
    }
}

/// The renderer chosen for a request: automatic starts with wgpu.
pub open spec fn renderer_for(request: RendererRequest) -> Renderer {
    match request {
        RendererRequest::Auto | RendererRequest::Wgpu => Renderer::Wgpu,
        RendererRequest::Glow => Renderer::Glow,
    }
}

/// Chooses the renderer from the `EDEN_RENDERER` value (None when unset).
pub fn select_renderer(raw: Option<&str>) -> (s: RendererSelection)
    ensures
        s == selection_for(env_view(raw)),
{
    let request = match raw {
        None => RendererRequest::Auto,
        Some(r) => {
            let t = normalize_setting(r);
            match request_from_text(t.as_str()) {
                Some(q) => q,
                None => RendererRequest::Auto,
            }
        },
    };
    let selected = match request {
        RendererRequest::Auto | RendererRequest::Wgpu => Renderer::Wgpu,
        RendererRequest::Glow => Renderer::Glow,
    };
    RendererSelection { request, selected }
}

/// The selection made for an `EDEN_RENDERER` value.
pub open spec fn selection_for(raw: Option<Seq<char>>) -> RendererSelection {
    RendererSelection {
        request: request_for_setting(raw),
        selected: renderer_for(request_for_setting(raw)),
    }
}

/// The renderer policy: a value that names no renderer is treated as
/// automatic; an explicit request gets the renderer it names and never falls
/// back; only the automatic request starts with wgpu and may retry with glow.
pub proof fn lemma_renderer_policy(raw: Option<Seq<char>>)
    ensures
        (raw matches Some(r) && request_named(normalized_setting(r)) is None)
            ==> selection_for(raw).request is Auto,
        selection_for(raw).request is Wgpu ==> selection_for(raw).selected is Wgpu,
        selection_for(raw).request is Glow ==> selection_for(raw).selected is Glow,
        may_fall_back(selection_for(raw)) <==> selection_for(raw).request is Auto,
{
}

/// The renderer the standalone renderer benchmark uses for an
/// `EDEN_RENDERER` value: glow when asked for, wgpu otherwise.
pub fn bench_renderer(raw: Option<&str>) -> (r: Renderer)
    ensures
        r == (match raw {
            Some(v) => if request_named(normalized_setting(v@)) == Some(RendererRequest::Glow) {
                Renderer::Glow
            } else {
                Renderer::Wgpu
            },
            None => Renderer::Wgpu,
        }),
{
    match raw {
        None => Renderer::Wgpu,
        Some(v) => {
            let t = normalize_setting(v);
            match request_from_text(t.as_str()) {
                Some(RendererRequest::Glow) => Renderer::Glow,
                _ => Renderer::Wgpu,
            }
        },
    }
}

/// Whether a normalized `EDEN_DIAGNOSTICS` value turns diagnostics on: "1",
/// "true" or "yes".
pub open spec fn diagnostics_on(t: Seq<char>) -> bool {
    t == seq!['1'] || t == seq!['t', 'r', 'u', 'e'] || t == seq!['y', 'e', 's']
}

/// Whether an `EDEN_DIAGNOSTICS` value (None when unset) turns diagnostics
/// on.
pub fn diagnostics_requested(raw: Option<&str>) -> (b: bool)
    ensures
        b == (match raw {
            Some(r) => diagnostics_on(normalized_setting(r@)),
            None => false,
        }),
{
    match raw {
        None => false,
        Some(r) => {
            let n = normalize_setting(r);
            let t = chars_of(n.as_str());
            let one = vec!['1'];
            let yes = vec!['y', 'e', 's'];
            assert(one@ =~= seq!['1']);
            assert(yes@ =~= seq!['y', 'e', 's']);
            chars_equal(&t, &one) || chars_equal(&t, &word4('t', 'r', 'u', 'e')) || chars_equal(
                &t,
                &yes,
            )
        },
    }
}

/// Whether diagnostics are on, once the environment has been consulted.
#[derive(Clone, Copy, Debug, PartialEq, Eq, Structural)]
pub enum DiagnosticsMode {
    Unknown,
    Disabled,
    Enabled,
}

/// Accumulated time and call count of one named region.
#[derive(Debug)]
pub struct RegionTiming {
    pub name: String,
    pub calls: u64,
    pub nanos: u64,
}

/// The diagnostic counters. Times are in nanoseconds on the caller's
/// monotonic clock. Regions are kept in increasing name order, each name
/// once.
#[derive(Debug)]
pub struct Diagnostics {
    pub mode: DiagnosticsMode,
    pub ui_calls: u64,
    pub ui_nanos: u64,
    pub repaint_requests: u64,
    pub rendered_frames: u64,
    pub viewport_events: u64,
    pub last_report: Option<u64>,
    pub regions: Vec<RegionTiming>,
}

/// A started UI pass: the start time when diagnostics are on.
#[derive(Debug)]
pub struct UiTimingGuard(pub Option<u64>);

/// The minimum time between two reports: five seconds.
pub const REPORT_INTERVAL_NANOS: u64 = 5_000_000_000;

/// Region names are in strictly increasing order.
pub open spec fn names_increasing(rs: Seq<RegionTiming>) -> bool {
    forall|i: int, j: int| 0 <= i < j < rs.len() ==> lex_order(rs[i].name@, rs[j].name@) < 0
}

/// The region list holds an entry for `name` with these totals.
pub open spec fn has_region(rs: Seq<RegionTiming>, name: Seq<char>, calls: u64, nanos: u64) -> bool {
    exists|k: int| 0 <= k < rs.len() && rs[k].name@ == name && rs[k].calls == calls && rs[k].nanos == nanos
}

/// The region list holds an entry for `name`.
pub open spec fn names_region(rs: Seq<RegionTiming>, name: Seq<char>) -> bool {
    exists|k: int| 0 <= k < rs.len() && rs[k].name@ == name
}

/// Whether diagnostics are on in a settled mode.
pub open spec fn mode_on(mode: DiagnosticsMode, raw: Option<Seq<char>>) -> bool {
    match mode {
        DiagnosticsMode::Unknown => match raw {
            Some(r) => diagnostics_on(normalized_setting(r)),
            None => false,
        },
        DiagnosticsMode::Disabled => false,
        DiagnosticsMode::Enabled => true,
    }
}

/// The view of an optional environment value.
pub open spec fn env_view(raw: Option<&str>) -> Option<Seq<char>> {
    match raw {
        Some(r) => Some(r@),
        None => None,
    }
}

/// The mode after diagnostics have been consulted once: the answer, settled.
pub open spec fn settled_mode(mode: DiagnosticsMode, raw: Option<Seq<char>>) -> DiagnosticsMode {
    if mode_on(mode, raw) {
        DiagnosticsMode::Enabled
    } else {
        DiagnosticsMode::Disabled
    }
}

/// The first answer sticks: once the mode is settled, every later query gives
/// the same answer whatever the environment value then is.
pub proof fn lemma_mode_settles(
    mode: DiagnosticsMode,
    first: Option<Seq<char>>,
    later: Option<Seq<char>>,
)
    ensures
        mode_on(settled_mode(mode, first), later) == mode_on(mode, first),
        settled_mode(settled_mode(mode, first), later) == settled_mode(mode, first),
{
}

impl Diagnostics {
    /// Counters at zero, with the environment not yet consulted.
    pub fn new() -> (d: Diagnostics)
        ensures
            d.mode is Unknown,
            d.ui_calls == 0,
            d.ui_nanos == 0,
            d.repaint_requests == 0,
            d.rendered_frames == 0,
            d.viewport_events == 0,
            d.last_report is None,
            d.regions@.len() == 0,
    {
        Diagnostics {
            mode: DiagnosticsMode::Unknown,
            ui_calls: 0,
            ui_nanos: 0,
            repaint_requests: 0,
            rendered_frames: 0,
            viewport_events: 0,
            last_report: None,
            regions: Vec::new(),
        }
    }

    /// Whether diagnostics are on. The first call settles the mode from the
    /// `EDEN_DIAGNOSTICS` value given; later calls keep that answer and ignore
    /// the value.
    pub fn enabled(&mut self, raw: Option<&str>) -> (b: bool)
        ensures
            b == mode_on(old(self).mode, env_view(raw)),
            final(self).mode == settled_mode(old(self).mode, env_view(raw)),
            final(self).ui_calls == old(self).ui_calls,
            final(self).ui_nanos == old(self).ui_nanos,
            final(self).repaint_requests == old(self).repaint_requests,
            final(self).rendered_frames == old(self).rendered_frames,
            final(self).viewport_events == old(self).viewport_events,
            final(self).last_report == old(self).last_report,
            final(self).regions@ == old(self).regions@,
    {
        let b = match self.mode {
            DiagnosticsMode::Unknown => diagnostics_requested(raw),
            DiagnosticsMode::Disabled => false,
            DiagnosticsMode::Enabled => true,
        };
        self.mode = if b {
            DiagnosticsMode::Enabled
        } else {
            DiagnosticsMode::Disabled
        };
        b
    }

    /// Starts timing a UI pass at time `now`: when diagnostics are on it
    /// counts the call and the guard carries the start time.
    pub fn begin_ui(&mut self, raw: Option<&str>, now: u64) -> (g: UiTimingGuard)
        ensures
            final(self).mode == settled_mode(old(self).mode, env_view(raw)),
            mode_on(old(self).mode, env_view(raw)) ==> g.0 == Some(now) && final(self).ui_calls
                == old(self).ui_calls.wrapping_add(1),
            !mode_on(old(self).mode, env_view(raw)) ==> g.0 is None && final(self).ui_calls
                == old(self).ui_calls,
            final(self).ui_nanos == old(self).ui_nanos,
            final(self).repaint_requests == old(self).repaint_requests,
            final(self).rendered_frames == old(self).rendered_frames,
            final(self).viewport_events == old(self).viewport_events,
            final(self).regions@ == old(self).regions@,
            final(self).last_report == old(self).last_report,
    {
        if self.enabled(raw) {
            self.ui_calls = self.ui_calls.wrapping_add(1);
            UiTimingGuard(Some(now))
        } else {
            UiTimingGuard(None)
        }
    }

    /// Ends a UI pass at time `now`: adds its duration (never negative) to the
    /// UI time and says whether a report is due. A guard without a start time
    /// changes nothing.
    pub fn end_ui(&mut self, guard: UiTimingGuard, now: u64) -> (report: bool)
        ensures
            (match guard.0 {
                Some(start) => {
                    &&& final(self).ui_nanos == old(self).ui_nanos.wrapping_add(
                        now.saturating_sub(start),
                    )
                    &&& report == report_due(old(self).last_report, now)
                    &&& final(self).last_report == (if report {
                        Some(now)
                    } else {
                        old(self).last_report
                    })
                },
                None => {
                    &&& !report
                    &&& final(self).ui_nanos == old(self).ui_nanos
                    &&& final(self).last_report == old(self).last_report
                },
            }),
            final(self).mode == old(self).mode,
            final(self).ui_calls == old(self).ui_calls,
            final(self).repaint_requests == old(self).repaint_requests,
            final(self).rendered_frames == old(self).rendered_frames,
            final(self).viewport_events == old(self).viewport_events,
            final(self).regions@ == old(self).regions@,
    {
        match guard.0 {
            Some(start) => {
                self.ui_nanos = self.ui_nanos.wrapping_add(now.saturating_sub(start));
                self.maybe_report(now)
            },
            None => false,
        }
    }

    /// Whether a report is due at time `now` (none yet, or at least five
    /// seconds since the last); when due, `now` becomes the last report time.
    pub fn maybe_report(&mut self, now: u64) -> (report: bool)
        ensures
            report == report_due(old(self).last_report, now),
            final(self).last_report == (if report {
                Some(now)
            } else {
                old(self).last_report
            }),
            final(self).mode == old(self).mode,
            final(self).ui_calls == old(self).ui_calls,
            final(self).ui_nanos == old(self).ui_nanos,
            final(self).repaint_requests == old(self).repaint_requests,
            final(self).rendered_frames == old(self).rendered_frames,
            final(self).viewport_events == old(self).viewport_events,
            final(self).regions@ == old(self).regions@,
    {
        let due = match self.last_report {
            None => true,
            Some(last) => now.saturating_sub(last) >= REPORT_INTERVAL_NANOS,
        };
        if due {
            self.last_report = Some(now);
        }
        due
    }

    /// Counts an explicit repaint request when diagnostics are on.
    pub fn record_repaint_request(&mut self, raw: Option<&str>)
        ensures
            final(self).mode == settled_mode(old(self).mode, env_view(raw)),
            final(self).repaint_requests == (if mode_on(old(self).mode, env_view(raw)) {
                old(self).repaint_requests.wrapping_add(1)
            } else {
                old(self).repaint_requests
            }),
            final(self).ui_calls == old(self).ui_calls,
            final(self).ui_nanos == old(self).ui_nanos,
            final(self).rendered_frames == old(self).rendered_frames,
            final(self).viewport_events == old(self).viewport_events,
            final(self).regions@ == old(self).regions@,
            final(self).last_report == old(self).last_report,
    {
        if self.enabled(raw) {
            self.repaint_requests = self.repaint_requests.wrapping_add(1);
        }
    }

    /// Counts a rendered frame when diagnostics are on.
    pub fn record_rendered_frame(&mut self, raw: Option<&str>)
        ensures
            final(self).mode == settled_mode(old(self).mode, env_view(raw)),
            final(self).rendered_frames == (if mode_on(old(self).mode, env_view(raw)) {
                old(self).rendered_frames.wrapping_add(1)
            } else {
                old(self).rendered_frames
            }),
            final(self).ui_calls == old(self).ui_calls,
            final(self).ui_nanos == old(self).ui_nanos,
            final(self).repaint_requests == old(self).repaint_requests,
            final(self).viewport_events == old(self).viewport_events,
            final(self).regions@ == old(self).regions@,
            final(self).last_report == old(self).last_report,
    {
        if self.enabled(raw) {
            self.rendered_frames = self.rendered_frames.wrapping_add(1);
        }
    }

    /// Counts a window event (move, size, position change, paint, end of a
    /// move) when diagnostics are on.
    pub fn record_viewport_event(&mut self, raw: Option<&str>)
        ensures
            final(self).mode == settled_mode(old(self).mode, env_view(raw)),
            final(self).viewport_events == (if mode_on(old(self).mode, env_view(raw)) {
                old(self).viewport_events.wrapping_add(1)
            } else {
                old(self).viewport_events
            }),
            final(self).ui_calls == old(self).ui_calls,
            final(self).ui_nanos == old(self).ui_nanos,
            final(self).repaint_requests == old(self).repaint_requests,
            final(self).rendered_frames == old(self).rendered_frames,
            final(self).regions@ == old(self).regions@,
            final(self).last_report == old(self).last_report,
    {
        if self.enabled(raw) {
            self.viewport_events = self.viewport_events.wrapping_add(1);
        }
    }
}

/// Strict order composed with a non-strict one is strict.
proof fn lemma_lex_strict_then_weak(a: Seq<char>, b: Seq<char>, c: Seq<char>)
    requires
        lex_order(a, b) < 0,
        lex_order(b, c) <= 0,
    ensures
        lex_order(a, c) < 0,
{
    lemma_lex_order_transitive(a, b, c);
    lemma_lex_order_antisymmetric(a, c);
    lemma_lex_order_antisymmetric(a, b);
    lemma_lex_order_antisymmetric(b, c);
}

impl Diagnostics {
    /// The well-formedness of the counters: region names strictly increase.
    pub open spec fn wf(&self) -> bool {
        names_increasing(self.regions@)
    }

    /// Adds one call of `elapsed` nanoseconds to the region `name` when
    /// diagnostics are on, creating the region (in name order) on its first
    /// call. Totals wrap around on overflow.
    pub fn record_region(&mut self, raw: Option<&str>, name: &str, elapsed: u64)
        requires
            old(self).wf(),
        ensures
            final(self).mode == settled_mode(old(self).mode, env_view(raw)),
            final(self).wf(),
            !mode_on(old(self).mode, env_view(raw)) ==> final(self).regions@ == old(self).regions@,
            mode_on(old(self).mode, env_view(raw)) ==> {
                &&& forall|n: Seq<char>, c: u64, t: u64|
                    n != name@ ==> (has_region(final(self).regions@, n, c, t) <==> has_region(
                        old(self).regions@,
                        n,
                        c,
                        t,
                    ))
                &&& forall|c: u64, t: u64|
                    has_region(old(self).regions@, name@, c, t) ==> has_region(
                        final(self).regions@,
                        name@,
                        c.wrapping_add(1),
                        t.wrapping_add(elapsed),
                    ) && final(self).regions@.len() == old(self).regions@.len()
                &&& !names_region(old(self).regions@, name@) ==> has_region(
                    final(self).regions@,
                    name@,
                    1,
                    elapsed,
                ) && final(self).regions@.len() == old(self).regions@.len() + 1
            },
            final(self).ui_calls == old(self).ui_calls,
            final(self).ui_nanos == old(self).ui_nanos,
            final(self).repaint_requests == old(self).repaint_requests,
            final(self).rendered_frames == old(self).rendered_frames,
            final(self).viewport_events == old(self).viewport_events,
            final(self).last_report == old(self).last_report,
    {
        if !self.enabled(raw) {
            return;
        }
        let key = chars_of(name);
        let n = self.regions.len();
        let ghost rs = self.regions@;
        let mut i: usize = 0;
        while i < n && lex_compare(&chars_of(self.regions[i].name.as_str()), &key) < 0
            invariant
                self.regions@ == rs,
                n == rs.len(),
                key@ == name@,
                i <= n,
                forall|k: int| 0 <= k < i ==> lex_order(#[trigger] rs[k].name@, name@) < 0,
            decreases n - i,
        {
            i = i + 1;
        }
        proof {
            assert forall|k: int| i <= k < n implies lex_order(name@, #[trigger] rs[k].name@) <= 0 by {
                lemma_lex_order_antisymmetric(rs[i as int].name@, name@);
                if k > i {
                    lemma_lex_order_antisymmetric(rs[i as int].name@, rs[k].name@);
                    lemma_lex_order_transitive(name@, rs[i as int].name@, rs[k].name@);
                }
            }
        }
        let found = if i < n {
            lex_compare(&chars_of(self.regions[i].name.as_str()), &key) == 0
        } else {
            false
        };
        if found {
            let e = self.regions.remove(i);
            proof {
                lemma_lex_order_antisymmetric(e.name@, name@);
            }
            let updated = RegionTiming {
                name: e.name,
                calls: e.calls.wrapping_add(1),
                nanos: e.nanos.wrapping_add(elapsed),
            };
            self.regions.insert(i, updated);
            proof {
                let new = self.regions@;
                assert(new =~= rs.update(i as int, new[i as int]));
                assert forall|a: int, b: int| 0 <= a < b < new.len() implies lex_order(
                    new[a].name@,
                    new[b].name@,
                ) < 0 by {
                    assert(new[a].name@ == rs[a].name@);
                    assert(new[b].name@ == rs[b].name@);
                }
                assert forall|nm: Seq<char>, c: u64, t: u64| nm != name@ implies (has_region(
                    new,
                    nm,
                    c,
                    t,
                ) <==> has_region(rs, nm, c, t)) by {
                    if has_region(new, nm, c, t) {
                        let k = choose|k: int|
                            0 <= k < new.len() && new[k].name@ == nm && new[k].calls == c
                                && new[k].nanos == t;
                        assert(k != i);
                        assert(rs[k] == new[k]);
                    }
                    if has_region(rs, nm, c, t) {
                        let k = choose|k: int|
                            0 <= k < rs.len() && rs[k].name@ == nm && rs[k].calls == c
                                && rs[k].nanos == t;
                        assert(k != i);
                        assert(rs[k] == new[k]);
                    }
                }
                assert forall|c: u64, t: u64| has_region(rs, name@, c, t) implies has_region(
                    new,
                    name@,
                    c.wrapping_add(1),
                    t.wrapping_add(elapsed),
                ) by {
                    let k = choose|k: int|
                        0 <= k < rs.len() && rs[k].name@ == name@ && rs[k].calls == c
                            && rs[k].nanos == t;
                    if k != i {
                        if k < i {
                            lemma_lex_order_antisymmetric(rs[k].name@, name@);
                        } else {
                            lemma_lex_order_antisymmetric(rs[i as int].name@, rs[k].name@);
                        }
                    }
                    assert(new[i as int].name@ == name@);
                }
                assert(names_region(rs, name@)) by {
                    assert(rs[i as int].name@ == name@);
                }
            }
        } else {
            proof {
                if i < n {
                    lemma_lex_order_antisymmetric(rs[i as int].name@, name@);
                }
            }
            let entry = RegionTiming { name: name.to_owned(), calls: 1, nanos: elapsed };
            self.regions.insert(i, entry);
            proof {
                let new = self.regions@;
                assert(new =~= rs.insert(i as int, new[i as int]));
                assert forall|k: int| i < k < n implies lex_order(name@, #[trigger] rs[k].name@) < 0 by {
                    lemma_lex_order_antisymmetric(rs[i as int].name@, name@);
                    lemma_lex_strict_then_weak(name@, rs[i as int].name@, rs[k].name@);
                }
                assert forall|a: int, b: int| 0 <= a < b < new.len() implies lex_order(
                    new[a].name@,
                    new[b].name@,
                ) < 0 by {
                    if b < i {
                    } else if b == i {
                    } else if a < i {
                        assert(new[b] == rs[b - 1]);
                        assert(lex_order(rs[a].name@, name@) < 0);
                        if b - 1 == i {
                            lemma_lex_order_antisymmetric(rs[i as int].name@, name@);
                            lemma_lex_strict_then_weak(rs[a].name@, name@, rs[b - 1].name@);
                        } else {
                            lemma_lex_strict_then_weak(rs[a].name@, name@, rs[b - 1].name@);
                        }
                    } else if a == i {
                        assert(new[b] == rs[b - 1]);
                        if b - 1 == i {
                            lemma_lex_order_antisymmetric(rs[i as int].name@, name@);
                        }
                    } else {
                        assert(new[b] == rs[b - 1]);
                        assert(new[a] == rs[a - 1]);
                    }
                }
                assert(!names_region(rs, name@)) by {
                    if names_region(rs, name@) {
                        let k = choose|k: int| 0 <= k < rs.len() && rs[k].name@ == name@;
                        lemma_lex_order_antisymmetric(rs[k].name@, name@);
                        if k == i {
                        } else if k > i {
                            lemma_lex_order_antisymmetric(name@, rs[k].name@);
                        }
                    }
                }
                assert forall|nm: Seq<char>, c: u64, t: u64| nm != name@ implies (has_region(
                    new,
                    nm,
                    c,
                    t,
                ) <==> has_region(rs, nm, c, t)) by {
                    if has_region(new, nm, c, t) {
                        let k = choose|k: int|
                            0 <= k < new.len() && new[k].name@ == nm && new[k].calls == c
                                && new[k].nanos == t;
                        if k < i {
                            assert(rs[k] == new[k]);
                        } else {
                            assert(k != i);
                            assert(rs[k - 1] == new[k]);
                        }
                    }
                    if has_region(rs, nm, c, t) {
                        let k = choose|k: int|
                            0 <= k < rs.len() && rs[k].name@ == nm && rs[k].calls == c
                                && rs[k].nanos == t;
                        if k < i {
                            assert(rs[k] == new[k]);
                        } else {
                            assert(rs[k] == new[k + 1]);
                        }
                    }
                }
                assert(has_region(new, name@, 1, elapsed)) by {
                    assert(new[i as int].name@ == name@);
                }
            }
        }
    }
}

/// Whether a report is due at `now` given the time of the last one.
pub open spec fn report_due(last: Option<u64>, now: u64) -> bool {
    match last {
        None => true,
        Some(l) => now.saturating_sub(l) >= REPORT_INTERVAL_NANOS,
    }
}

/// A counter after `n` counting calls, each adding one with wrap-around (as
/// `record_repaint_request`, `record_rendered_frame`, `record_viewport_event`
/// and `begin_ui` do when diagnostics are on).
pub open spec fn counted(start: u64, n: nat) -> u64
    decreases n,
{
    if n == 0 {
        start
    } else {
        counted(start, (n - 1) as nat).wrapping_add(1)
    }
}

/// No count is lost: `n` counting calls add exactly `n`, modulo 2^64.
pub proof fn lemma_counts_add_up(start: u64, n: nat)
    ensures
        counted(start, n) as int == (start as int + n) % 0x1_0000_0000_0000_0000,
    decreases n,
{
    if n > 0 {
        lemma_counts_add_up(start, (n - 1) as nat);
        let c = counted(start, (n - 1) as nat);
        let x = start as int + n - 1;
        assert(c as int == x % 0x1_0000_0000_0000_0000);
        vstd::arithmetic::div_mod::lemma_add_mod_noop(x, 1, 0x1_0000_0000_0000_0000);
        vstd::arithmetic::div_mod::lemma_small_mod(1, 0x1_0000_0000_0000_0000);
        vstd::arithmetic::div_mod::lemma_mod_self_0(0x1_0000_0000_0000_0000);
    }
}

} // verus!
