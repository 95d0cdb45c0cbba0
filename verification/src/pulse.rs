//! The pulse flow: a bounded frame of recent points and a running
//! scalar.
//!
//! Events move the scalar; after each event the scalar is clamped to an
//! optional range before it is appended to the frame, but the scalar kept
//! in the state stays unclamped — clamping is view-only.  The frame keeps
//! at most `depth` points, dropping the oldest.

use vstd::prelude::*;

use crate::codec::dec_bool;
use crate::codec::dec_i64;
use crate::codec::dec_u64;
use crate::codec::enc_bool;
use crate::codec::enc_bool_spec;
use crate::codec::enc_i64;
use crate::codec::enc_i64_spec;
use crate::codec::lemma_bool_round;
use crate::codec::lemma_i64_round;
use crate::codec::lemma_u64_round;
use crate::codec::parse_bool;
use crate::codec::parse_i64;
use crate::codec::parse_u64;
use crate::flow::delta_enc;
use crate::flow::delta_models;
use crate::flow::dec_timed_list;
use crate::flow::enc_timed_list;
use crate::flow::lemma_timed_list_round;
use crate::flow::timed_parser;
use crate::flow::DataFraction;
use crate::flow::Flow;
use crate::flow::Metric;
use crate::flow::TimedEvent;
use crate::provider::PackedMetric;
use crate::provider::StreamType;

verus! {

/// An inclusive range a pulse view is clamped to.
#[derive(Debug, Clone, Copy, PartialEq, Eq, Structural)]
pub struct Range {
    pub min: i64,
    pub max: i64,
}

/// The value `v` clamped to an optional range.
pub open spec fn clamp_spec(range: Option<Range>, v: i64) -> i64 {
    match range {
        None => v,
        Some(r) => if v < r.min {
            r.min
        } else if v > r.max {
            r.max
        } else {
            v
        },
    }
}

impl Range {
    /// Clamps `v` to this range.
    pub fn clamp(&self, v: i64) -> (r: i64)
        ensures
            r == clamp_spec(Some(*self), v),
    {
        if v < self.min {
            self.min
        } else if v > self.max {
            self.max
        } else {
            v
        }
    }
}

/// The encoding of an optional range: a presence byte, then both bounds.
pub open spec fn enc_opt_range_spec(r: Option<Range>) -> Seq<u8> {
    match r {
        None => enc_bool_spec(false),
        Some(range) => enc_bool_spec(true) + enc_i64_spec(range.min) + enc_i64_spec(range.max),
    }
}

/// Parses an optional range.
pub open spec fn parse_opt_range(b: Seq<u8>) -> Option<(Option<Range>, Seq<u8>)> {
    match parse_bool(b) {
        Some((present, rest)) => if present {
            match parse_i64(rest) {
                Some((min, mid)) => match parse_i64(mid) {
                    Some((max, tail)) => Some((Some(Range { min, max }), tail)),
                    None => None,
                },
                None => None,
            }
        } else {
            Some((None, rest))
        },
        None => None,
    }
}

/// Parsing undoes encoding for optional ranges.
pub proof fn lemma_opt_range_round(r: Option<Range>, rest: Seq<u8>)
    ensures
        parse_opt_range(enc_opt_range_spec(r) + rest) == Some((r, rest)),
{
    match r {
        None => {
            lemma_bool_round(false, rest);
        },
        Some(range) => {
            assert(enc_opt_range_spec(r) + rest =~= enc_bool_spec(true) + (enc_i64_spec(range.min)
                + (enc_i64_spec(range.max) + rest)));
            lemma_bool_round(true, enc_i64_spec(range.min) + (enc_i64_spec(range.max) + rest));
            lemma_i64_round(range.min, enc_i64_spec(range.max) + rest);
            lemma_i64_round(range.max, rest);
        },
    }
}

/// Decodes an optional range at position `pos` of `data`.
pub fn dec_opt_range(data: &Vec<u8>, pos: usize) -> (r: Option<(Option<Range>, usize)>)
    requires
        pos <= data@.len(),
    ensures
        r matches Some(p) ==> {
            &&& pos <= p.1 <= data@.len()
            &&& parse_opt_range(data@.skip(pos as int)) == Some((p.0, data@.skip(p.1 as int)))
        },
        r is None ==> parse_opt_range(data@.skip(pos as int)) is None,
{
    match dec_bool(data, pos) {
        Some((present, mid)) => {
            if present {
                match dec_i64(data, mid) {
                    Some((min, mid2)) => match dec_i64(data, mid2) {
                        Some((max, end)) => Some((Some(Range { min, max }), end)),
                        None => None,
                    },
                    None => None,
                }
            } else {
                Some((None, mid))
            }
        },
        None => None,
    }
}

/// The metadata of a pulse stream: the optional range its view is
/// clamped to.
#[derive(Debug, Clone, Copy, PartialEq, Eq, Structural)]
pub struct PulseMetric {
    pub range: Option<Range>,
}

impl View for PulseMetric {
    type V = PulseMetric;

    open spec fn view(&self) -> PulseMetric {
        *self
    }
}

impl DataFraction for PulseMetric {
    open spec fn frac_wf(m: PulseMetric) -> bool {
        true
    }

    fn clone_frac(&self) -> (r: Self) {
        *self
    }

    open spec fn frac_enc(m: PulseMetric) -> Seq<u8> {
        enc_opt_range_spec(m.range)
    }

    open spec fn frac_parse(b: Seq<u8>) -> Option<(PulseMetric, Seq<u8>)> {
        match parse_opt_range(b) {
            Some((range, rest)) => Some((PulseMetric { range }, rest)),
            None => None,
        }
    }

    proof fn frac_round(m: PulseMetric, rest: Seq<u8>) {
        lemma_opt_range_round(m.range, rest);
    }

    fn enc_frac(&self, buf: &mut Vec<u8>) {
        match self.range {
            None => {
                enc_bool(buf, false);
            },
            Some(range) => {
                enc_bool(buf, true);
                enc_i64(buf, range.min);
                enc_i64(buf, range.max);
            },
        }
        proof {
            assert(buf@ =~= old(buf)@ + Self::frac_enc(self@));
        }
    }

    fn dec_frac(data: &Vec<u8>, pos: usize) -> (r: Option<(PulseMetric, usize)>) {
        match dec_opt_range(data, pos) {
            Some((range, end)) => Some((PulseMetric { range }, end)),
            None => None,
        }
    }
}

impl Metric for PulseMetric {
    fn pack_metric(&self) -> (r: PackedMetric) {
        let mut buf: Vec<u8> = Vec::new();
        self.enc_frac(&mut buf);
        proof {
            assert(buf@ =~= Self::frac_enc(self@));
            crate::flow::lemma_state_round_trip::<PulseMetric>(self@);
        }
        PackedMetric(buf)
    }

    fn unpack_metric(data: &PackedMetric) -> (r: Result<PulseMetric, crate::codec::CodecError>) {
        proof {
            assert(data.0@.skip(0) =~= data@);
        }
        match Self::dec_frac(&data.0, 0) {
            Some((metric, end)) => {
                if end == data.0.len() {
                    proof {
                        assert(data@.skip(end as int) =~= Seq::<u8>::empty());
                    }
                    Ok(metric)
                } else {
                    proof {
                        assert(data@.skip(end as int).len() > 0);
                    }
                    Err(crate::codec::CodecError {})
                }
            },
            None => Err(crate::codec::CodecError {}),
        }
    }
}

/// One recorded point of a pulse stream.
#[derive(Debug, Clone, Copy, PartialEq, Eq, Structural)]
pub struct PulsePoint {
    pub value: i64,
}

impl View for PulsePoint {
    type V = PulsePoint;

    open spec fn view(&self) -> PulsePoint {
        *self
    }
}

impl DataFraction for PulsePoint {
    open spec fn frac_wf(m: PulsePoint) -> bool {
        true
    }

    fn clone_frac(&self) -> (r: Self) {
        *self
    }

    open spec fn frac_enc(m: PulsePoint) -> Seq<u8> {
        enc_i64_spec(m.value)
    }

    open spec fn frac_parse(b: Seq<u8>) -> Option<(PulsePoint, Seq<u8>)> {
        match parse_i64(b) {
            Some((value, rest)) => Some((PulsePoint { value }, rest)),
            None => None,
        }
    }

    proof fn frac_round(m: PulsePoint, rest: Seq<u8>) {
        lemma_i64_round(m.value, rest);
    }

    fn enc_frac(&self, buf: &mut Vec<u8>) {
        enc_i64(buf, self.value);
    }

    fn dec_frac(data: &Vec<u8>, pos: usize) -> (r: Option<(PulsePoint, usize)>) {
        match dec_i64(data, pos) {
            Some((value, end)) => Some((PulsePoint { value }, end)),
            None => None,
        }
    }
}

/// The abstract value of a pulse state.
#[verifier::ext_equal]
pub ghost struct PulseStateV {
    pub range: Option<Range>,
    pub depth: u32,
    pub frame: Seq<(i64, PulsePoint)>,
    pub value: i64,
}

/// The state of a pulse stream: the clamping range, the frame capacity,
/// the recent points, and the running scalar.
#[derive(Debug, Clone)]
pub struct PulseState {
    pub range: Option<Range>,
    depth: u32,
    pub frame: Vec<TimedEvent<PulsePoint>>,
    value: i64,
}

impl View for PulseState {
    type V = PulseStateV;

    closed spec fn view(&self) -> PulseStateV {
        PulseStateV {
            range: self.range,
            depth: self.depth,
            frame: delta_models(self.frame@),
            value: self.value,
        }
    }
}

/// The default frame capacity of a pulse stream.
pub open spec fn default_pulse_depth() -> u32 {
    128
}

impl PulseState {
    /// A fresh pulse state with the given frame capacity.
    pub fn new(depth: Option<u32>) -> (r: PulseState)
        ensures
            r@ == (PulseStateV {
                range: None,
                depth: (match depth {
                    Some(d) => d,
                    None => default_pulse_depth(),
                }),
                frame: Seq::<(i64, PulsePoint)>::empty(),
                value: 0,
            }),
    {
        let depth = match depth {
            Some(d) => d,
            None => 128,
        };
        let r = PulseState { range: None, depth, frame: Vec::new(), value: 0 };
        proof {
            assert(delta_models(r.frame@) =~= Seq::<(i64, PulsePoint)>::empty());
            assert(r@ =~= (PulseStateV {
                range: None,
                depth,
                frame: Seq::<(i64, PulsePoint)>::empty(),
                value: 0,
            }));
        }
        r
    }

    /// Sets the clamping range.
    pub fn set_range(&mut self, range: Option<Range>)
        ensures
            final(self)@ == (PulseStateV { range, ..old(self)@ }),
    {
        self.range = range;
        proof {
            assert(self@ =~= (PulseStateV { range, ..old(self)@ }));
        }
    }

    /// The running scalar, unclamped.
    pub fn value(&self) -> (r: i64)
        ensures
            r == self@.value,
    {
        self.value
    }
}

impl DataFraction for PulseState {
    open spec fn frac_wf(m: PulseStateV) -> bool {
        m.frame.len() <= u64::MAX
    }

    fn clone_frac(&self) -> (r: Self) {
        let mut frame: Vec<TimedEvent<PulsePoint>> = Vec::new();
        let n = self.frame.len();
        let mut i: usize = 0;
        while i < n
            invariant
                n == self.frame@.len(),
                i <= n,
                frame@.len() == i,
                forall|k: int| 0 <= k < i ==> #[trigger] frame@[k]@ == self.frame@[k]@,
            decreases n - i,
        {
            let te = &self.frame[i];
            frame.push(TimedEvent { timestamp: te.timestamp, event: te.event });
            i = i + 1;
        }
        let r = PulseState { range: self.range, depth: self.depth, frame, value: self.value };
        proof {
            assert forall|k: int| 0 <= k < n implies delta_models(r.frame@)[k] == delta_models(
                self.frame@,
            )[k] by {
                assert(r.frame@[k]@ == self.frame@[k]@);
            }
            assert(delta_models(r.frame@) =~= delta_models(self.frame@));
            assert(r@ =~= self@);
        }
        r
    }

    open spec fn frac_enc(m: PulseStateV) -> Seq<u8> {
        enc_opt_range_spec(m.range) + vstd::bytes::spec_u64_to_le_bytes(m.depth as u64)
            + enc_i64_spec(m.value) + delta_enc::<PulsePoint>(m.frame)
    }

    open spec fn frac_parse(b: Seq<u8>) -> Option<(PulseStateV, Seq<u8>)> {
        match parse_opt_range(b) {
            Some((range, r1)) => match parse_u64(r1) {
                Some((depth, r2)) => if depth <= u32::MAX && depth >= 0 {
                    match parse_i64(r2) {
                        Some((value, r3)) => match crate::codec::parse_counted(
                            r3,
                            timed_parser::<PulsePoint>(),
                        ) {
                            Some((frame, tail)) => Some(
                                (PulseStateV { range, depth: depth as u32, frame, value }, tail),
                            ),
                            None => None,
                        },
                        None => None,
                    }
                } else {
                    None
                },
                None => None,
            },
            None => None,
        }
    }

    proof fn frac_round(m: PulseStateV, rest: Seq<u8>) {
        let tail1 = vstd::bytes::spec_u64_to_le_bytes(m.depth as u64) + (enc_i64_spec(m.value) + (
        delta_enc::<PulsePoint>(m.frame) + rest));
        assert(Self::frac_enc(m) + rest =~= enc_opt_range_spec(m.range) + tail1);
        lemma_opt_range_round(m.range, tail1);
        lemma_u64_round(m.depth as u64, enc_i64_spec(m.value) + (delta_enc::<PulsePoint>(m.frame)
            + rest));
        lemma_i64_round(m.value, delta_enc::<PulsePoint>(m.frame) + rest);
        lemma_timed_list_round::<PulsePoint>(m.frame, rest);
    }

    fn enc_frac(&self, buf: &mut Vec<u8>) {
        match self.range {
            None => {
                enc_bool(buf, false);
            },
            Some(range) => {
                enc_bool(buf, true);
                enc_i64(buf, range.min);
                enc_i64(buf, range.max);
            },
        }
        crate::codec::enc_u64(buf, self.depth as u64);
        enc_i64(buf, self.value);
        enc_timed_list::<PulsePoint>(buf, &self.frame);
        proof {
            assert(buf@ =~= old(buf)@ + Self::frac_enc(self@));
        }
    }

    fn dec_frac(data: &Vec<u8>, pos: usize) -> (r: Option<(PulseState, usize)>) {
        match dec_opt_range(data, pos) {
            Some((range, p1)) => match dec_u64(data, p1) {
                Some((depth, p2)) => {
                    if depth <= u32::MAX as u64 {
                        match dec_i64(data, p2) {
                            Some((value, p3)) => match dec_timed_list::<PulsePoint>(data, p3) {
                                Some((frame, end)) => {
                                    let n = frame.len();
                                    let state = PulseState {
                                        range,
                                        depth: depth as u32,
                                        frame,
                                        value,
                                    };
                                    proof {
                                        assert(state@.frame.len() == n);
                                        assert(Self::frac_parse(data@.skip(pos as int)) == Some(
                                            (state@, data@.skip(end as int)),
                                        ));
                                    }
                                    Some((state, end))
                                },
                                None => None,
                            },
                            None => None,
                        }
                    } else {
                        None
                    }
                },
                None => None,
            },
            None => None,
        }
    }
}

/// The mutation of a pulse stream.
#[derive(Debug, Clone, Copy, PartialEq, Eq, Structural)]
pub enum PulseEvent {
    Inc(i64),
    Dec(i64),
    SetTo(i64),
}

impl View for PulseEvent {
    type V = PulseEvent;

    open spec fn view(&self) -> PulseEvent {
        *self
    }
}

/// The tag bytes of the pulse event variants.
pub open spec fn pulse_event_tag(m: PulseEvent) -> u8 {
    match m {
        PulseEvent::Inc(d) => 0u8,
        PulseEvent::Dec(d) => 1u8,
        PulseEvent::SetTo(v) => 2u8,
    }
}

impl DataFraction for PulseEvent {
    open spec fn frac_wf(m: PulseEvent) -> bool {
        true
    }

    fn clone_frac(&self) -> (r: Self) {
        *self
    }

    open spec fn frac_enc(m: PulseEvent) -> Seq<u8> {
        match m {
            PulseEvent::Inc(d) => seq![0u8] + enc_i64_spec(d),
            PulseEvent::Dec(d) => seq![1u8] + enc_i64_spec(d),
            PulseEvent::SetTo(v) => seq![2u8] + enc_i64_spec(v),
        }
    }

    open spec fn frac_parse(b: Seq<u8>) -> Option<(PulseEvent, Seq<u8>)> {
        if b.len() >= 1 && b[0] <= 2u8 {
            match parse_i64(b.skip(1)) {
                Some((v, rest)) => if b[0] == 0u8 {
                    Some((PulseEvent::Inc(v), rest))
                } else if b[0] == 1u8 {
                    Some((PulseEvent::Dec(v), rest))
                } else {
                    Some((PulseEvent::SetTo(v), rest))
                },
                None => None,
            }
        } else {
            None
        }
    }

    proof fn frac_round(m: PulseEvent, rest: Seq<u8>) {
        let enc = Self::frac_enc(m);
        assert((enc + rest).skip(1) =~= enc.skip(1) + rest);
        match m {
            PulseEvent::Inc(d) => {
                assert(enc.skip(1) =~= enc_i64_spec(d));
                lemma_i64_round(d, rest);
            },
            PulseEvent::Dec(d) => {
                assert(enc.skip(1) =~= enc_i64_spec(d));
                lemma_i64_round(d, rest);
            },
            PulseEvent::SetTo(v) => {
                assert(enc.skip(1) =~= enc_i64_spec(v));
                lemma_i64_round(v, rest);
            },
        }
    }

    fn enc_frac(&self, buf: &mut Vec<u8>) {
        match self {
            PulseEvent::Inc(d) => {
                buf.push(0u8);
                enc_i64(buf, *d);
            },
            PulseEvent::Dec(d) => {
                buf.push(1u8);
                enc_i64(buf, *d);
            },
            PulseEvent::SetTo(v) => {
                buf.push(2u8);
                enc_i64(buf, *v);
            },
        }
        proof {
            assert(buf@ =~= old(buf)@ + Self::frac_enc(self@));
        }
    }

    fn dec_frac(data: &Vec<u8>, pos: usize) -> (r: Option<(PulseEvent, usize)>) {
        if pos < data.len() {
            let tag = data[pos];
            proof {
                assert(data@.skip(pos as int)[0] == data@[pos as int]);
                assert(data@.skip(pos as int).skip(1) =~= data@.skip(pos + 1));
            }
            if tag <= 2u8 {
                match dec_i64(data, pos + 1) {
                    Some((v, end)) => {
                        if tag == 0u8 {
                            Some((PulseEvent::Inc(v), end))
                        } else if tag == 1u8 {
                            Some((PulseEvent::Dec(v), end))
                        } else {
                            Some((PulseEvent::SetTo(v), end))
                        }
                    },
                    None => None,
                }
            } else {
                None
            }
        } else {
            None
        }
    }
}

/// The effect of one pulse event on the abstract state.
pub open spec fn pulse_apply_spec(
    range: Option<Range>,
    m: PulseStateV,
    ts: i64,
    ev: PulseEvent,
) -> PulseStateV {
    let value = match ev {
        PulseEvent::Inc(d) => vstd::wrapping::i64_specs::wrapping_add(m.value, d),
        PulseEvent::Dec(d) => vstd::wrapping::i64_specs::wrapping_sub(m.value, d),
        PulseEvent::SetTo(v) => v,
    };
    let point = PulsePoint { value: clamp_spec(range, value) };
    let pushed = m.frame.push((ts, point));
    let frame = if pushed.len() > m.depth {
        pushed.skip(1)
    } else {
        pushed
    };
    PulseStateV { range: m.range, depth: m.depth, frame, value }
}

impl PulseMetric {
    /// Folds one timed event into a pulse state, clamping the recorded
    /// point to this metric's range.
    pub fn apply(&self, state: &mut PulseState, event: TimedEvent<PulseEvent>)
        ensures
            final(state)@ == pulse_apply_spec(
                self.range,
                old(state)@,
                event.timestamp.0,
                event.event,
            ),
    {
        let value = match event.event {
            PulseEvent::Inc(d) => state.value.wrapping_add(d),
            PulseEvent::Dec(d) => state.value.wrapping_sub(d),
            PulseEvent::SetTo(v) => v,
        };
        state.value = value;
        let clamped = match self.range {
            None => value,
            Some(range) => range.clamp(value),
        };
        let point = PulsePoint { value: clamped };
        let timed = TimedEvent { timestamp: event.timestamp, event: point };
        state.frame.push(timed);
        let over = state.frame.len() > state.depth as usize;
        if over {
            state.frame.remove(0);
        }
        proof {
            let pushed = old(state)@.frame.push((event.timestamp.0, point));
            assert(delta_models(old(state).frame@.push(timed)) =~= pushed);
            if over {
                assert(delta_models(state.frame@) =~= pushed.skip(1));
            }
            assert(state@ =~= pulse_apply_spec(
                self.range,
                old(state)@,
                event.timestamp.0,
                event.event,
            ));
        }
    }
}

/// A frame at its capacity stays at its capacity: applying an event to a
/// state whose frame holds at most `depth` points leaves at most `depth`
/// points.
pub proof fn lemma_pulse_frame_bounded(
    range: Option<Range>,
    m: PulseStateV,
    ts: i64,
    ev: PulseEvent,
)
    requires
        m.frame.len() <= m.depth,
    ensures
        pulse_apply_spec(range, m, ts, ev).frame.len() <= m.depth,
{
}

impl Flow for PulseState {
    type Action = PulseEvent;

    type Event = PulseEvent;

    open spec fn stream_type_spec() -> Seq<char> {
        "rillrate.pulse.v0"@
    }

    open spec fn apply_spec(m: PulseStateV, ts: i64, ev: PulseEvent) -> PulseStateV {
        pulse_apply_spec(m.range, m, ts, ev)
    }

    proof fn apply_preserves_wf(m: PulseStateV, ts: i64, ev: PulseEvent) {
    }

    fn stream_type() -> (r: StreamType) {
        StreamType::of_str("rillrate.pulse.v0")
    }

    fn apply(&mut self, event: TimedEvent<PulseEvent>) {
        let metric = PulseMetric { range: self.range };
        metric.apply(self, event);
    }

    open spec fn action_event_spec(a: PulseEvent) -> Option<PulseEvent> {
        Some(a)
    }

    fn action_event(action: PulseEvent) -> (r: Option<PulseEvent>) {
        Some(action)
    }
}

} // verus!
