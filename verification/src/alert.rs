//! The alert flow: an inert state whose events are the notifications
//! themselves.

use vstd::prelude::*;

use crate::codec::dec_str;
use crate::codec::enc_str;
use crate::codec::enc_str_spec;
use crate::codec::lemma_str_round;
use crate::codec::parse_str;
use crate::flow::DataFraction;
use crate::flow::Flow;
use crate::flow::TimedEvent;
use crate::provider::StreamType;

verus! {

/// The metadata of an alert stream; an alert has none.
#[derive(Debug, Clone, Copy, PartialEq, Eq, Structural)]
pub struct AlertFlow;

impl View for AlertFlow {
    type V = AlertFlow;

    open spec fn view(&self) -> AlertFlow {
        *self
    }
}

impl DataFraction for AlertFlow {
    open spec fn frac_wf(m: AlertFlow) -> bool {
        true
    }

    fn clone_frac(&self) -> (r: Self) {
        *self
    }

    open spec fn frac_enc(m: AlertFlow) -> Seq<u8> {
        Seq::empty()
    }

    open spec fn frac_parse(b: Seq<u8>) -> Option<(AlertFlow, Seq<u8>)> {
        Some((AlertFlow, b))
    }

    proof fn frac_round(m: AlertFlow, rest: Seq<u8>) {
        assert(Self::frac_enc(m) + rest =~= rest);
    }

    fn enc_frac(&self, buf: &mut Vec<u8>) {
        proof {
            assert(buf@ =~= old(buf)@ + Self::frac_enc(self@));
        }
    }

    fn dec_frac(data: &Vec<u8>, pos: usize) -> (r: Option<(AlertFlow, usize)>) {
        Some((AlertFlow, pos))
    }
}

impl crate::flow::Metric for AlertFlow {
    fn pack_metric(&self) -> (r: crate::provider::PackedMetric) {
        proof {
            crate::flow::lemma_state_round_trip::<AlertFlow>(self@);
            assert(Self::frac_enc(self@) =~= Seq::<u8>::empty());
        }
        crate::provider::PackedMetric(Vec::new())
    }

    fn unpack_metric(data: &crate::provider::PackedMetric) -> (r: Result<
        AlertFlow,
        crate::codec::CodecError,
    >) {
        proof {
            assert(data.0@.skip(0) =~= data@);
        }
        if data.0.len() == 0 {
            proof {
                assert(data@.skip(0) =~= Seq::<u8>::empty());
            }
            Ok(AlertFlow)
        } else {
            Err(crate::codec::CodecError {})
        }
    }
}

/// The state of an alert stream; alerts keep no state.
#[derive(Debug, Clone, Copy, PartialEq, Eq, Structural)]
pub struct AlertState {}

impl AlertState {
    /// A fresh alert state.
    pub fn new() -> (r: AlertState)
        ensures
            r == (AlertState {}),
    {
        AlertState {}
    }
}

impl View for AlertState {
    type V = AlertState;

    open spec fn view(&self) -> AlertState {
        *self
    }
}

impl DataFraction for AlertState {
    open spec fn frac_wf(m: AlertState) -> bool {
        true
    }

    fn clone_frac(&self) -> (r: Self) {
        *self
    }

    open spec fn frac_enc(m: AlertState) -> Seq<u8> {
        Seq::empty()
    }

    open spec fn frac_parse(b: Seq<u8>) -> Option<(AlertState, Seq<u8>)> {
        Some((AlertState {}, b))
    }

    proof fn frac_round(m: AlertState, rest: Seq<u8>) {
        assert(Self::frac_enc(m) + rest =~= rest);
    }

    fn enc_frac(&self, buf: &mut Vec<u8>) {
        proof {
            assert(buf@ =~= old(buf)@ + Self::frac_enc(self@));
        }
    }

    fn dec_frac(data: &Vec<u8>, pos: usize) -> (r: Option<(AlertState, usize)>) {
        Some((AlertState {}, pos))
    }
}

/// One alert: the message is the whole of the event.
#[derive(Debug, Clone)]
pub struct AlertEvent {
    pub msg: String,
}

impl View for AlertEvent {
    type V = Seq<char>;

    open spec fn view(&self) -> Seq<char> {
        self.msg@
    }
}

impl DataFraction for AlertEvent {
    open spec fn frac_wf(m: Seq<char>) -> bool {
        vstd::utf8::encode_utf8(m).len() <= u64::MAX
    }

    fn clone_frac(&self) -> (r: Self) {
        AlertEvent { msg: self.msg.clone() }
    }

    open spec fn frac_enc(m: Seq<char>) -> Seq<u8> {
        enc_str_spec(m)
    }

    open spec fn frac_parse(b: Seq<u8>) -> Option<(Seq<char>, Seq<u8>)> {
        parse_str(b)
    }

    proof fn frac_round(m: Seq<char>, rest: Seq<u8>) {
        lemma_str_round(m, rest);
    }

    fn enc_frac(&self, buf: &mut Vec<u8>) {
        enc_str(buf, self.msg.as_str());
    }

    fn dec_frac(data: &Vec<u8>, pos: usize) -> (r: Option<(AlertEvent, usize)>) {
        match dec_str(data, pos) {
            Some((msg, end)) => Some((AlertEvent { msg }, end)),
            None => None,
        }
    }
}

impl Flow for AlertState {
    type Action = AlertEvent;

    type Event = AlertEvent;

    open spec fn stream_type_spec() -> Seq<char> {
        "rillrate.alert.v0"@
    }

    open spec fn apply_spec(m: AlertState, ts: i64, ev: Seq<char>) -> AlertState {
        m
    }

    proof fn apply_preserves_wf(m: AlertState, ts: i64, ev: Seq<char>) {
    }

    fn stream_type() -> (r: StreamType) {
        StreamType::of_str("rillrate.alert.v0")
    }

    fn apply(&mut self, event: TimedEvent<AlertEvent>) {
    }

    open spec fn action_event_spec(a: Seq<char>) -> Option<Seq<char>> {
        Some(a)
    }

    fn action_event(action: AlertEvent) -> (r: Option<AlertEvent>) {
        Some(action)
    }
}

} // verus!
