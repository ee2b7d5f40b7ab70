//! Page events of a web window: held back until the window's observers are active, then
//! recorded in the registry in the order they happened.
use vstd::prelude::*;
use crate::registry::{
    event_result, is_web_page, page_finished, records_finish, repeats_failed_url, updated,
    with_page_failed, with_page_started, with_title, ActiveWindow, WindowRegistry,
};
use crate::protocol::SourceKind;

verus! {

/// Something a web view reported about its page.
#[derive(Clone, Debug, PartialEq, Eq)]
pub enum WebObservation {
    PageStarted(String),
    PageFinished(String),
    PageFailed { url: String, error: String },
    Title(String),
}

/// Whether a window's observers are active yet, and what arrived before they were.
pub struct ObservationGate {
    active: bool,
    pending: Vec<WebObservation>,
}

/// The abstract gate: active, and the observations held back, oldest first.
pub struct GateView {
    pub active: bool,
    pub pending: Seq<WebObservation>,
}

impl View for ObservationGate {
    type V = GateView;

    closed spec fn view(&self) -> GateView {
        GateView { active: self.active, pending: self.pending@ }
    }
}

/// An active gate holds nothing back.
pub open spec fn gate_ok(g: GateView) -> bool {
    g.active ==> g.pending.len() == 0
}

/// One observation arriving: an active gate passes it on at once; an inactive one holds
/// it back behind those already waiting.
pub open spec fn arrive(g: GateView, o: WebObservation) -> (GateView, Seq<WebObservation>) {
    if g.active {
        (g, seq![o])
    } else {
        (GateView { active: false, pending: g.pending.push(o) }, Seq::empty())
    }
}

/// A sequence of observations taken in turn: the resulting state and the observations
/// passed on, in order.
pub open spec fn arrive_all(g: GateView, os: Seq<WebObservation>) -> (GateView, Seq<WebObservation>)
    decreases os.len(),
{
    if os.len() == 0 {
        (g, Seq::empty())
    } else {
        let (g1, passed) = arrive_all(g, os.drop_last());
        let (g2, now) = arrive(g1, os.last());
        (g2, passed + now)
    }
}

/// Activation releases the held observations in arrival order.
pub open spec fn activate_gate(g: GateView) -> (GateView, Seq<WebObservation>) {
    (GateView { active: true, pending: Seq::empty() }, g.pending)
}

impl ObservationGate {
    /// A gate whose observers are not active yet.
    pub fn new() -> (g: Self)
        ensures
            g@ == (GateView { active: false, pending: Seq::empty() }),
    {
        ObservationGate { active: false, pending: Vec::new() }
    }

    /// Takes one observation: returns it to be recorded at once when the observers are
    /// active, and holds it otherwise.
    pub fn record_or_buffer(&mut self, observation: WebObservation) -> (now: Option<WebObservation>)
        ensures
            arrive(old(self)@, observation) == (final(self)@, match now {
                Some(o) => seq![o],
                None => Seq::<WebObservation>::empty(),
            }),
    {
        if self.active {
            Some(observation)
        } else {
            self.pending.push(observation);
            None
        }
    }

    /// Activates the observers and returns the held observations in arrival order.
    pub fn activate(&mut self) -> (released: Vec<WebObservation>)
        ensures
            activate_gate(old(self)@) == (final(self)@, released@),
    {
        self.active = true;
        let mut released: Vec<WebObservation> = Vec::new();
        std::mem::swap(&mut released, &mut self.pending);
        assert(self.pending@ =~= Seq::<WebObservation>::empty());
        released
    }
}

/// Nothing is lost, repeated or reordered: whatever observations arrive at a gate, before
/// or after it is activated, they are passed on in the order they arrived, after those it
/// already held.
pub proof fn law_observations_pass_in_arrival_order(g: GateView, before: Seq<WebObservation>, after: Seq<WebObservation>)
    requires
        gate_ok(g),
    ensures
        ({
            let (g1, passed1) = arrive_all(g, before);
            let (g2, released) = activate_gate(g1);
            let (_g3, passed2) = arrive_all(g2, after);
            passed1 + released + passed2 == g.pending + before + after
        }),
{
    lemma_arrive_all(g, before);
    let (g1, passed1) = arrive_all(g, before);
    let (g2, released) = activate_gate(g1);
    lemma_arrive_all(g2, after);
    assert(g.pending + before + after =~= passed1 + released + arrive_all(g2, after).1);
}

/// What a run of arrivals does: an active gate passes everything on and stays as it was;
/// an inactive one passes nothing and holds the run behind what it held.
proof fn lemma_arrive_all(g: GateView, os: Seq<WebObservation>)
    requires
        gate_ok(g),
    ensures
        g.active ==> arrive_all(g, os) == (g, os),
        !g.active ==> arrive_all(g, os) == (GateView { active: false, pending: g.pending + os }, Seq::<WebObservation>::empty()),
    decreases os.len(),
{
    if os.len() > 0 {
        lemma_arrive_all(g, os.drop_last());
        assert(os.drop_last().push(os.last()) =~= os);
        if g.active {
            assert(Seq::<WebObservation>::empty() + seq![os.last()] =~= seq![os.last()]);
            assert(os.drop_last() + seq![os.last()] =~= os);
        } else {
            assert(g.pending + os.drop_last() + seq![os.last()] =~= g.pending + os);
            assert((g.pending + os.drop_last()).push(os.last()) =~= g.pending + os);
            assert(Seq::<WebObservation>::empty() + Seq::<WebObservation>::empty() =~= Seq::<WebObservation>::empty());
        }
    } else {
        assert(g.pending + os =~= g.pending);
    }
}

/// Records one observation of window `id` in the registry, as the matching registry
/// event does, and gives the window's state afterwards, if it is still open.
pub fn apply_observation(registry: &mut WindowRegistry, id: &str, observation: WebObservation) -> (r: Option<ActiveWindow>)
    requires
        old(registry).wf(),
    ensures
        final(registry).wf(),
        final(registry).focus_count() == old(registry).focus_count(),
        final(registry).retired_ids() == old(registry).retired_ids(),
        match observation {
            WebObservation::PageStarted(url) => final(registry)@ == event_result(old(registry)@, id@,
                is_web_page(old(registry)@[id@].0) && !repeats_failed_url(old(registry)@[id@].0, url@),
                with_page_started(old(registry)@[id@].0, url@)),
            WebObservation::PageFinished(url) => if old(registry)@.contains_key(id@) && records_finish(old(registry)@[id@].0) {
                final(registry)@.contains_key(id@) && final(registry)@ == updated(old(registry)@, id@, final(registry)@[id@].0)
                    && page_finished(old(registry)@[id@].0, final(registry)@[id@].0, url@)
            } else {
                final(registry)@ == old(registry)@
            },
            WebObservation::PageFailed { url, error } => final(registry)@ == event_result(old(registry)@, id@,
                old(registry)@[id@].0.source_kind == SourceKind::Web,
                with_page_failed(old(registry)@[id@].0, url@, error@)),
            WebObservation::Title(title) => final(registry)@ == event_result(old(registry)@, id@,
                old(registry)@[id@].0.source_kind == SourceKind::Web,
                with_title(old(registry)@[id@].0, title@)),
        },
        match r {
            Some(w) => final(registry)@.contains_key(id@) && w@ == final(registry)@[id@].0,
            None => !final(registry)@.contains_key(id@),
        },
{
    match observation {
        WebObservation::PageStarted(url) => registry.record_page_started(id, url),
        WebObservation::PageFinished(url) => registry.record_page_finished(id, url),
        WebObservation::PageFailed { url, error } => registry.record_page_failed(id, url, error),
        WebObservation::Title(title) => registry.record_title(id, title),
    }
    match registry.status(id) {
        Ok(w) => Some(w),
        Err(_) => None,
    }
}

} // verus!
