//! Ordering guarantees over whole runs of a recorder.
//!
//! A run is abstracted step by step: each inbound message yields the
//! frames that went out, each frame the set of subscriber ids it names
//! and its kind, together with the subscriber set after the step.  The
//! step discipline (`step_ok`) is what every recorder handler ensures;
//! from it alone follow the protocol's ordering laws: a `Data` frame
//! reaches an id only after a subscription that delivered exactly one
//! `State` frame, with no `EndStream` in between, and the timestamps a
//! subscriber sees are monotone when the producer's are.

use vstd::prelude::*;

verus! {

/// The kind of an outbound frame, as the ordering laws see it.
#[derive(Debug, Clone, Copy, PartialEq, Eq, Structural)]
pub enum FrameKind {
    StateFrame,
    DataFrame,
    EndFrame,
    DescriptionFrame,
    ErrorFrame,
    OtherFrame,
}

/// The kind of one protocol response.
pub open spec fn frame_kind(d: crate::provider::ProviderToServer) -> FrameKind {
    match d {
        crate::provider::ProviderToServer::State { state } => FrameKind::StateFrame,
        crate::provider::ProviderToServer::Data { delta } => FrameKind::DataFrame,
        crate::provider::ProviderToServer::EndStream => FrameKind::EndFrame,
        crate::provider::ProviderToServer::Description { list } => FrameKind::DescriptionFrame,
        crate::provider::ProviderToServer::Error { reason } => FrameKind::ErrorFrame,
        _ => FrameKind::OtherFrame,
    }
}

/// The abstraction of one outbound envelope: who it names, and what it
/// carries.
pub open spec fn frame_of(env: crate::recorder::OutEnvelope) -> (Set<u64>, FrameKind) {
    (crate::protocol::direction_targets(env.direction), frame_kind(env.data))
}

/// The abstraction of a batch of outbound envelopes.
pub open spec fn frames_of(out: Seq<crate::recorder::OutEnvelope>) -> Seq<(Set<u64>, FrameKind)> {
    out.map(|i: int, env: crate::recorder::OutEnvelope| frame_of(env))
}

/// The kinds of the frames one id receives from a batch, in order.
pub open spec fn frames_to(frames: Seq<(Set<u64>, FrameKind)>, id: u64) -> Seq<FrameKind>
    decreases frames.len(),
{
    if frames.len() == 0 {
        Seq::empty()
    } else {
        let rest = frames_to(frames.drop_first(), id);
        if frames[0].0.contains(id) {
            seq![frames[0].1] + rest
        } else {
            rest
        }
    }
}

/// The discipline of one step: what every recorder handler ensures of
/// the frames it emits, given the subscriber sets before and after.
///
/// An id that subscribes receives exactly one `State`; an id that stays
/// subscribed never receives `EndStream`; an id that leaves receives a
/// final `EndStream`, or nothing when the link is gone; an id that was
/// not and is not subscribed receives neither `Data` nor `EndStream`.
pub open spec fn step_ok(
    pre: Set<u64>,
    frames: Seq<(Set<u64>, FrameKind)>,
    post: Set<u64>,
) -> bool {
    forall|id: u64|
        {
            let fs = #[trigger] frames_to(frames, id);
            &&& (!pre.contains(id) && !post.contains(id)) ==> !fs.contains(FrameKind::DataFrame)
                && !fs.contains(FrameKind::EndFrame)
            &&& (!pre.contains(id) && post.contains(id)) ==> fs == seq![FrameKind::StateFrame]
            &&& (pre.contains(id) && post.contains(id)) ==> !fs.contains(FrameKind::EndFrame)
            &&& (pre.contains(id) && !post.contains(id)) ==> (fs == seq![FrameKind::EndFrame] || fs
                == Seq::<FrameKind>::empty())
        }
}

/// One step of a recorder run: the frames that went out, and the
/// subscriber set after the step.
pub ghost struct TraceStep {
    pub frames: Seq<(Set<u64>, FrameKind)>,
    pub subs: Set<u64>,
}

/// The subscriber set before step `i`; a run starts with none.
pub open spec fn subs_before(steps: Seq<TraceStep>, i: int) -> Set<u64> {
    if i == 0 {
        Set::empty()
    } else {
        steps[i - 1].subs
    }
}

/// Every step of the run obeys the step discipline.
pub open spec fn trace_ok(steps: Seq<TraceStep>) -> bool {
    forall|i: int|
        0 <= i < steps.len() ==> step_ok(
            subs_before(steps, i),
            #[trigger] steps[i].frames,
            steps[i].subs,
        )
}

/// Step `j` subscribes `id`: it was not subscribed, it is afterwards,
/// and it received exactly one `State` frame.
pub open spec fn subscribe_step(steps: Seq<TraceStep>, j: int, id: u64) -> bool {
    &&& 0 <= j < steps.len()
    &&& !subs_before(steps, j).contains(id)
    &&& steps[j].subs.contains(id)
    &&& frames_to(steps[j].frames, id) == seq![FrameKind::StateFrame]
}

/// `id` subscribed at step `j` and stayed subscribed through step `i`,
/// and no `EndStream` reached it anywhere in between.
pub open spec fn clean_span(steps: Seq<TraceStep>, j: int, i: int, id: u64) -> bool {
    &&& 0 <= j <= i
    &&& subscribe_step(steps, j, id)
    &&& (forall|k: int| j <= k <= i ==> (#[trigger] steps[k].subs).contains(id))
    &&& (forall|k: int|
        j <= k <= i ==> !frames_to(#[trigger] steps[k].frames, id).contains(FrameKind::EndFrame))
}

/// A subscribed id subscribed at some earlier step and has stayed
/// subscribed since, with no `EndStream` in between.
pub proof fn lemma_member_since(steps: Seq<TraceStep>, i: int, id: u64)
    requires
        trace_ok(steps),
        0 <= i < steps.len(),
        steps[i].subs.contains(id),
    ensures
        exists|j: int| #[trigger] clean_span(steps, j, i, id),
    decreases i,
{
    assert(step_ok(subs_before(steps, i), steps[i].frames, steps[i].subs));
    if subs_before(steps, i).contains(id) {
        assert(i > 0);
        lemma_member_since(steps, i - 1, id);
        let j = choose|j: int| #[trigger] clean_span(steps, j, i - 1, id);
        assert(!frames_to(steps[i].frames, id).contains(FrameKind::EndFrame));
        assert(clean_span(steps, j, i, id));
    } else {
        assert(frames_to(steps[i].frames, id) == seq![FrameKind::StateFrame]);
        assert(!seq![FrameKind::StateFrame].contains(FrameKind::EndFrame)) by {
            assert(forall|k: int|
                0 <= k < seq![FrameKind::StateFrame].len() ==> seq![FrameKind::StateFrame][k]
                    == FrameKind::StateFrame);
        }
        assert(clean_span(steps, i, i, id));
    }
}

/// A `Data` frame reaches an id only when it has previously received
/// exactly one `State` frame — at its subscription — and has received no
/// `EndStream` since.
pub proof fn lemma_data_needs_subscription(steps: Seq<TraceStep>, i: int, id: u64)
    requires
        trace_ok(steps),
        0 <= i < steps.len(),
        frames_to(steps[i].frames, id).contains(FrameKind::DataFrame),
    ensures
        exists|j: int| #[trigger] clean_span(steps, j, i, id),
{
    assert(step_ok(subs_before(steps, i), steps[i].frames, steps[i].subs));
    let fs = frames_to(steps[i].frames, id);
    assert(fs.contains(FrameKind::DataFrame));
    if !subs_before(steps, i).contains(id) && !steps[i].subs.contains(id) {
        assert(false);
    }
    if !subs_before(steps, i).contains(id) && steps[i].subs.contains(id) {
        assert(fs == seq![FrameKind::StateFrame]);
        let k = choose|k: int| 0 <= k < fs.len() && fs[k] == FrameKind::DataFrame;
        assert(false);
    }
    if subs_before(steps, i).contains(id) && !steps[i].subs.contains(id) {
        if fs == seq![FrameKind::EndFrame] {
            let k = choose|k: int| 0 <= k < fs.len() && fs[k] == FrameKind::DataFrame;
            assert(false);
        } else {
            assert(fs == Seq::<FrameKind>::empty());
            assert(false);
        }
    }
    assert(steps[i].subs.contains(id));
    lemma_member_since(steps, i, id);
}

/// A run extends by one step that obeys the discipline from the run's
/// final subscriber set.
pub proof fn lemma_trace_snoc(steps: Seq<TraceStep>, frames: Seq<(Set<u64>, FrameKind)>, subs: Set<u64>)
    requires
        trace_ok(steps),
        step_ok(subs_before(steps, steps.len() as int), frames, subs),
    ensures
        trace_ok(steps.push(TraceStep { frames, subs })),
{
    let longer = steps.push(TraceStep { frames, subs });
    assert forall|i: int| 0 <= i < longer.len() implies step_ok(
        subs_before(longer, i),
        #[trigger] longer[i].frames,
        longer[i].subs,
    ) by {
        if i < steps.len() {
            assert(step_ok(subs_before(steps, i), steps[i].frames, steps[i].subs));
            assert(subs_before(longer, i) == subs_before(steps, i));
            assert(longer[i] == steps[i]);
        } else {
            assert(longer[i] == (TraceStep { frames, subs }));
            assert(subs_before(longer, i) == subs_before(steps, steps.len() as int));
        }
    }
}


// ---------------------------------------------------------------------
// Bookkeeping of id sets.
// ---------------------------------------------------------------------
/// Appending an id adds exactly it to the set of ids.
pub proof fn lemma_push_to_set(s: Seq<u64>, v: u64)
    ensures
        s.push(v).to_set() =~= s.to_set().insert(v),
{
    assert forall|x: u64| s.push(v).to_set().contains(x) implies s.to_set().insert(v).contains(
        x,
    ) by {
        let k = choose|k: int| 0 <= k < s.push(v).len() && s.push(v)[k] == x;
        if k < s.len() {
            assert(s[k] == x);
        }
    }
    assert forall|x: u64| s.to_set().insert(v).contains(x) implies s.push(v).to_set().contains(
        x,
    ) by {
        if x == v {
            assert(s.push(v)[s.len() as int] == x);
        } else {
            let k = choose|k: int| 0 <= k < s.len() && s[k] == x;
            assert(s.push(v)[k] == x);
        }
    }
}

/// A duplicate-free id list keeps exactly the other ids when one is
/// removed.
pub proof fn lemma_distinct_remove(s: Seq<u64>, i: int)
    requires
        0 <= i < s.len(),
        forall|a: int, b: int| 0 <= a < b < s.len() ==> s[a] != s[b],
    ensures
        forall|a: int, b: int|
            0 <= a < b < s.remove(i).len() ==> s.remove(i)[a] != s.remove(i)[b],
        s.remove(i).to_set() =~= s.to_set().remove(s[i]),
{
    s.remove_ensures(i);
    assert forall|x: u64| s.remove(i).to_set().contains(x) implies s.to_set().remove(
        s[i],
    ).contains(x) by {
        let k = choose|k: int| 0 <= k < s.remove(i).len() && s.remove(i)[k] == x;
        if k < i {
            assert(s[k] == x);
        } else {
            assert(s[k + 1] == x);
        }
    }
    assert forall|x: u64| s.to_set().remove(s[i]).contains(x) implies s.remove(
        i,
    ).to_set().contains(x) by {
        let k = choose|k: int| 0 <= k < s.len() && s[k] == x;
        if k < i {
            assert(s.remove(i)[k] == x);
        } else {
            assert(k > i);
            assert(s.remove(i)[k - 1] == x);
        }
    }
}

// ---------------------------------------------------------------------
// Timestamp monotonicity.
// ---------------------------------------------------------------------
/// The timestamps never decrease.
pub open spec fn monotone(s: Seq<i64>) -> bool {
    forall|a: int, b: int| 0 <= a <= b < s.len() ==> s[a] <= s[b]
}

/// All timestamps of a run of chunks, in delivery order.
pub open spec fn flatten_chunks(cs: Seq<Seq<i64>>) -> Seq<i64>
    decreases cs.len(),
{
    if cs.len() == 0 {
        Seq::empty()
    } else {
        cs[0] + flatten_chunks(cs.drop_first())
    }
}

/// The chunks a subscriber received: those that arrived while it was
/// subscribed.
pub open spec fn delivered_chunks(cs: Seq<Seq<i64>>, picked: Seq<bool>) -> Seq<Seq<i64>>
    decreases cs.len(),
{
    if cs.len() == 0 {
        Seq::empty()
    } else {
        let rest = delivered_chunks(cs.drop_first(), picked.drop_first());
        if picked.len() > 0 && picked[0] {
            seq![cs[0]] + rest
        } else {
            rest
        }
    }
}

/// A value delivered to the subscriber was in the full run.
proof fn lemma_delivered_element(cs: Seq<Seq<i64>>, picked: Seq<bool>, v: i64)
    requires
        flatten_chunks(delivered_chunks(cs, picked)).contains(v),
    ensures
        flatten_chunks(cs).contains(v),
    decreases cs.len(),
{
    if cs.len() == 0 {
    } else {
        let rest = delivered_chunks(cs.drop_first(), picked.drop_first());
        if picked.len() > 0 && picked[0] {
            assert(flatten_chunks(seq![cs[0]] + rest) =~= cs[0] + flatten_chunks(rest)) by {
                assert((seq![cs[0]] + rest).drop_first() =~= rest);
                assert((seq![cs[0]] + rest)[0] == cs[0]);
            }
            if cs[0].contains(v) {
                let k = choose|k: int| 0 <= k < cs[0].len() && cs[0][k] == v;
                assert(flatten_chunks(cs)[k] == v);
            } else {
                let w = flatten_chunks(rest);
                assert((cs[0] + w).contains(v));
                let k = choose|k: int| 0 <= k < (cs[0] + w).len() && (cs[0] + w)[k] == v;
                assert(w[k - cs[0].len()] == v);
                lemma_delivered_element(cs.drop_first(), picked.drop_first(), v);
                let t = flatten_chunks(cs.drop_first());
                let m = choose|m: int| 0 <= m < t.len() && t[m] == v;
                assert(flatten_chunks(cs)[cs[0].len() + m] == v);
            }
        } else {
            lemma_delivered_element(cs.drop_first(), picked.drop_first(), v);
            let t = flatten_chunks(cs.drop_first());
            let m = choose|m: int| 0 <= m < t.len() && t[m] == v;
            assert(flatten_chunks(cs)[cs[0].len() + m] == v);
        }
    }
}

/// A suffix of a monotone run is monotone.
proof fn lemma_monotone_tail(cs: Seq<Seq<i64>>)
    requires
        cs.len() > 0,
        monotone(flatten_chunks(cs)),
    ensures
        monotone(flatten_chunks(cs.drop_first())),
{
    let whole = flatten_chunks(cs);
    let tail = flatten_chunks(cs.drop_first());
    assert forall|a: int, b: int| 0 <= a <= b < tail.len() implies tail[a] <= tail[b] by {
        assert(whole[cs[0].len() + a] == tail[a]);
        assert(whole[cs[0].len() + b] == tail[b]);
    }
}

/// What one subscriber receives of a monotone run is monotone: the
/// recorder forwards whole chunks in arrival order, so dropping the
/// chunks that arrived while the id was not subscribed cannot reorder
/// the timestamps it sees.
pub proof fn lemma_delivered_monotone(cs: Seq<Seq<i64>>, picked: Seq<bool>)
    requires
        monotone(flatten_chunks(cs)),
    ensures
        monotone(flatten_chunks(delivered_chunks(cs, picked))),
    decreases cs.len(),
{
    if cs.len() == 0 {
    } else {
        lemma_monotone_tail(cs);
        lemma_delivered_monotone(cs.drop_first(), picked.drop_first());
        let rest = delivered_chunks(cs.drop_first(), picked.drop_first());
        let whole = flatten_chunks(cs);
        let tail = flatten_chunks(cs.drop_first());
        let got = flatten_chunks(rest);
        if picked.len() > 0 && picked[0] {
            assert(flatten_chunks(seq![cs[0]] + rest) =~= cs[0] + got) by {
                assert((seq![cs[0]] + rest).drop_first() =~= rest);
                assert((seq![cs[0]] + rest)[0] == cs[0]);
            }
            assert forall|a: int, b: int|
                0 <= a <= b < (cs[0] + got).len() implies (cs[0] + got)[a] <= (cs[0]
                + got)[b] by {
                if b < cs[0].len() {
                    assert(whole[a] == cs[0][a]);
                    assert(whole[b] == cs[0][b]);
                } else if a >= cs[0].len() {
                    assert((cs[0] + got)[a] == got[a - cs[0].len()]);
                    assert((cs[0] + got)[b] == got[b - cs[0].len()]);
                } else {
                    let x = cs[0][a];
                    let y = got[b - cs[0].len()];
                    lemma_delivered_element(cs.drop_first(), picked.drop_first(), y);
                    let m = choose|m: int| 0 <= m < tail.len() && tail[m] == y;
                    assert(whole[a] == x);
                    assert(whole[cs[0].len() + m] == y);
                }
            }
        }
    }
}

// ---------------------------------------------------------------------
// The step shapes a recorder emits.
// ---------------------------------------------------------------------
/// What one frame delivers to one id.
pub proof fn lemma_frames_to_single(f: (Set<u64>, FrameKind), id: u64)
    ensures
        f.0.contains(id) ==> frames_to(seq![f], id) == seq![f.1],
        !f.0.contains(id) ==> frames_to(seq![f], id) == Seq::<FrameKind>::empty(),
{
    assert(seq![f].drop_first() =~= Seq::<(Set<u64>, FrameKind)>::empty());
    assert(frames_to(Seq::<(Set<u64>, FrameKind)>::empty(), id) == Seq::<FrameKind>::empty());
    assert(seq![f][0] == f);
    if f.0.contains(id) {
        assert(frames_to(seq![f], id) =~= seq![f.1]);
    }
}

/// A singleton sequence holds exactly its one element.
proof fn lemma_single_contains(x: FrameKind, y: FrameKind)
    ensures
        seq![x].contains(y) <==> x == y,
{
    assert(seq![x][0] == x);
    if seq![x].contains(y) {
        let k = choose|k: int| 0 <= k < seq![x].len() && seq![x][k] == y;
        assert(k == 0);
    }
}

/// A step that emits nothing and keeps the subscribers obeys the
/// discipline.
pub proof fn lemma_step_silent(pre: Set<u64>)
    ensures
        step_ok(pre, Seq::empty(), pre),
{
    assert forall|id: u64| #[trigger] frames_to(Seq::empty(), id) == Seq::<FrameKind>::empty() by {
        assert(frames_to(Seq::<(Set<u64>, FrameKind)>::empty(), id) == Seq::<FrameKind>::empty());
    }
}

/// A step that emits nothing and clears the subscribers obeys the
/// discipline: the ids leave with no frame, the way a lost connection
/// takes them.
pub proof fn lemma_step_clear(pre: Set<u64>)
    ensures
        step_ok(pre, Seq::empty(), Set::empty()),
{
    assert forall|id: u64| #[trigger] frames_to(Seq::empty(), id) == Seq::<FrameKind>::empty() by {
        assert(frames_to(Seq::<(Set<u64>, FrameKind)>::empty(), id) == Seq::<FrameKind>::empty());
    }
}

/// Subscribing one id with exactly one `State` frame obeys the
/// discipline.
pub proof fn lemma_step_subscribe(pre: Set<u64>, id: u64)
    requires
        !pre.contains(id),
    ensures
        step_ok(pre, seq![(set![id], FrameKind::StateFrame)], pre.insert(id)),
{
    let f = (set![id], FrameKind::StateFrame);
    assert forall|x: u64|
        {
            let fs = #[trigger] frames_to(seq![f], x);
            &&& (!pre.contains(x) && !pre.insert(id).contains(x)) ==> !fs.contains(
                FrameKind::DataFrame,
            ) && !fs.contains(FrameKind::EndFrame)
            &&& (!pre.contains(x) && pre.insert(id).contains(x)) ==> fs == seq![
                FrameKind::StateFrame,
            ]
            &&& (pre.contains(x) && pre.insert(id).contains(x)) ==> !fs.contains(
                FrameKind::EndFrame,
            )
            &&& (pre.contains(x) && !pre.insert(id).contains(x)) ==> (fs == seq![
                FrameKind::EndFrame,
            ] || fs == Seq::<FrameKind>::empty())
        } by {
        lemma_frames_to_single(f, x);
        lemma_single_contains(FrameKind::StateFrame, FrameKind::DataFrame);
        lemma_single_contains(FrameKind::StateFrame, FrameKind::EndFrame);
    }
}

/// Unsubscribing one id with exactly one `EndStream` frame obeys the
/// discipline.
pub proof fn lemma_step_unsubscribe(pre: Set<u64>, id: u64)
    requires
        pre.contains(id),
    ensures
        step_ok(pre, seq![(set![id], FrameKind::EndFrame)], pre.remove(id)),
{
    let f = (set![id], FrameKind::EndFrame);
    assert forall|x: u64|
        {
            let fs = #[trigger] frames_to(seq![f], x);
            &&& (!pre.contains(x) && !pre.remove(id).contains(x)) ==> !fs.contains(
                FrameKind::DataFrame,
            ) && !fs.contains(FrameKind::EndFrame)
            &&& (!pre.contains(x) && pre.remove(id).contains(x)) ==> fs == seq![
                FrameKind::StateFrame,
            ]
            &&& (pre.contains(x) && pre.remove(id).contains(x)) ==> !fs.contains(
                FrameKind::EndFrame,
            )
            &&& (pre.contains(x) && !pre.remove(id).contains(x)) ==> (fs == seq![
                FrameKind::EndFrame,
            ] || fs == Seq::<FrameKind>::empty())
        } by {
        lemma_frames_to_single(f, x);
        lemma_single_contains(FrameKind::EndFrame, FrameKind::DataFrame);
        lemma_single_contains(FrameKind::EndFrame, FrameKind::EndFrame);
    }
}

/// A one-off frame to one id that neither ends the stream nor carries
/// data — a snapshot, a description, an error — obeys the discipline
/// with the subscribers kept.
pub proof fn lemma_step_aside(pre: Set<u64>, id: u64, kind: FrameKind)
    requires
        kind != FrameKind::EndFrame,
        kind != FrameKind::DataFrame,
    ensures
        step_ok(pre, seq![(set![id], kind)], pre),
{
    let f = (set![id], kind);
    assert forall|x: u64|
        {
            let fs = #[trigger] frames_to(seq![f], x);
            &&& (!pre.contains(x) && !pre.contains(x)) ==> !fs.contains(FrameKind::DataFrame)
                && !fs.contains(FrameKind::EndFrame)
            &&& (pre.contains(x) && pre.contains(x)) ==> !fs.contains(FrameKind::EndFrame)
        } by {
        lemma_frames_to_single(f, x);
        lemma_single_contains(kind, FrameKind::DataFrame);
        lemma_single_contains(kind, FrameKind::EndFrame);
    }
}

/// A fan-out frame to exactly the current subscribers, carrying data or
/// a refreshed state, obeys the discipline.
pub proof fn lemma_step_fanout(pre: Set<u64>, kind: FrameKind)
    requires
        kind != FrameKind::EndFrame,
    ensures
        step_ok(pre, seq![(pre, kind)], pre),
{
    let f = (pre, kind);
    assert forall|x: u64|
        {
            let fs = #[trigger] frames_to(seq![f], x);
            &&& (!pre.contains(x) && !pre.contains(x)) ==> !fs.contains(FrameKind::DataFrame)
                && !fs.contains(FrameKind::EndFrame)
            &&& (pre.contains(x) && pre.contains(x)) ==> !fs.contains(FrameKind::EndFrame)
        } by {
        lemma_frames_to_single(f, x);
        lemma_single_contains(kind, FrameKind::DataFrame);
        lemma_single_contains(kind, FrameKind::EndFrame);
    }
}

/// The graceful shutdown: one `EndStream` frame naming exactly the
/// current subscribers, then none are left.
pub proof fn lemma_step_shutdown(pre: Set<u64>)
    ensures
        step_ok(pre, seq![(pre, FrameKind::EndFrame)], Set::empty()),
{
    let f = (pre, FrameKind::EndFrame);
    assert forall|x: u64|
        {
            let fs = #[trigger] frames_to(seq![f], x);
            &&& (!pre.contains(x) && !Set::<u64>::empty().contains(x)) ==> !fs.contains(
                FrameKind::DataFrame,
            ) && !fs.contains(FrameKind::EndFrame)
            &&& (pre.contains(x) && !Set::<u64>::empty().contains(x)) ==> (fs == seq![
                FrameKind::EndFrame,
            ] || fs == Seq::<FrameKind>::empty())
        } by {
        lemma_frames_to_single(f, x);
        lemma_single_contains(FrameKind::EndFrame, FrameKind::DataFrame);
        lemma_single_contains(FrameKind::EndFrame, FrameKind::EndFrame);
    }
}

} // verus!
