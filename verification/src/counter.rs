//! The counter flow: a running total and the moment it last changed.
//!
//! The single event increments the total; the total wraps on overflow,
//! the arithmetic of the machine integers it is kept in.

use vstd::prelude::*;

use crate::codec::dec_bool;
use crate::codec::dec_i64;
use crate::codec::enc_bool;
use crate::codec::enc_bool_spec;
use crate::codec::enc_i64;
use crate::codec::enc_i64_spec;
use crate::codec::lemma_bool_round;
use crate::codec::lemma_i64_round;
use crate::codec::parse_bool;
use crate::codec::parse_i64;
use crate::flow::DataFraction;
use crate::flow::Flow;
use crate::flow::TimedEvent;
use crate::provider::StreamType;
use crate::provider::Timestamp;

verus! {

/// The state of a counter stream: the timestamp of the last increment,
/// if any, and the running total.
#[derive(Debug, Clone, Copy, PartialEq, Eq, Structural)]
pub struct CounterState {
    pub timestamp: Option<Timestamp>,
    pub value: i64,
}

impl View for CounterState {
    type V = CounterState;

    open spec fn view(&self) -> CounterState {
        *self
    }
}

impl Default for CounterState {
    fn default() -> (r: CounterState)
        ensures
            r == (CounterState { timestamp: None, value: 0 }),
    {
        CounterState { timestamp: None, value: 0 }
    }
}

/// The encoding of an optional timestamp: a presence byte, then the
/// milliseconds when present.
pub open spec fn enc_opt_ts_spec(t: Option<Timestamp>) -> Seq<u8> {
    match t {
        None => enc_bool_spec(false),
        Some(ts) => enc_bool_spec(true) + enc_i64_spec(ts.0),
    }
}

/// Parses an optional timestamp.
pub open spec fn parse_opt_ts(b: Seq<u8>) -> Option<(Option<Timestamp>, Seq<u8>)> {
    match parse_bool(b) {
        Some((present, rest)) => if present {
            match parse_i64(rest) {
                Some((ms, tail)) => Some((Some(Timestamp(ms)), tail)),
                None => None,
            }
        } else {
            Some((None, rest))
        },
        None => None,
    }
}

/// Parsing undoes encoding for optional timestamps.
pub proof fn lemma_opt_ts_round(t: Option<Timestamp>, rest: Seq<u8>)
    ensures
        parse_opt_ts(enc_opt_ts_spec(t) + rest) == Some((t, rest)),
{
    match t {
        None => {
            lemma_bool_round(false, rest);
        },
        Some(ts) => {
            assert(enc_opt_ts_spec(t) + rest =~= enc_bool_spec(true) + (enc_i64_spec(ts.0)
                + rest));
            lemma_bool_round(true, enc_i64_spec(ts.0) + rest);
            lemma_i64_round(ts.0, rest);
        },
    }
}

/// Decodes an optional timestamp at position `pos` of `data`.
pub fn dec_opt_ts(data: &Vec<u8>, pos: usize) -> (r: Option<(Option<Timestamp>, usize)>)
    requires
        pos <= data@.len(),
    ensures
        r matches Some(p) ==> {
            &&& pos <= p.1 <= data@.len()
            &&& parse_opt_ts(data@.skip(pos as int)) == Some((p.0, data@.skip(p.1 as int)))
        },
        r is None ==> parse_opt_ts(data@.skip(pos as int)) is None,
{
    match dec_bool(data, pos) {
        Some((present, mid)) => {
            if present {
                match dec_i64(data, mid) {
                    Some((ms, end)) => Some((Some(Timestamp(ms)), end)),
                    None => None,
                }
            } else {
                Some((None, mid))
            }
        },
        None => None,
    }
}

impl DataFraction for CounterState {
    open spec fn frac_wf(m: CounterState) -> bool {
        true
    }

    fn clone_frac(&self) -> (r: Self) {
        *self
    }

    open spec fn frac_enc(m: CounterState) -> Seq<u8> {
        enc_opt_ts_spec(m.timestamp) + enc_i64_spec(m.value)
    }

    open spec fn frac_parse(b: Seq<u8>) -> Option<(CounterState, Seq<u8>)> {
        match parse_opt_ts(b) {
            Some((t, rest)) => match parse_i64(rest) {
                Some((v, tail)) => Some((CounterState { timestamp: t, value: v }, tail)),
                None => None,
            },
            None => None,
        }
    }

    proof fn frac_round(m: CounterState, rest: Seq<u8>) {
        assert(Self::frac_enc(m) + rest =~= enc_opt_ts_spec(m.timestamp) + (enc_i64_spec(m.value)
            + rest));
        lemma_opt_ts_round(m.timestamp, enc_i64_spec(m.value) + rest);
        lemma_i64_round(m.value, rest);
    }

    fn enc_frac(&self, buf: &mut Vec<u8>) {
        match self.timestamp {
            None => {
                enc_bool(buf, false);
            },
            Some(ts) => {
                enc_bool(buf, true);
                enc_i64(buf, ts.0);
            },
        }
        enc_i64(buf, self.value);
        proof {
            assert(buf@ =~= old(buf)@ + Self::frac_enc(self@));
        }
    }

    fn dec_frac(data: &Vec<u8>, pos: usize) -> (r: Option<(CounterState, usize)>) {
        match dec_opt_ts(data, pos) {
            Some((t, mid)) => match dec_i64(data, mid) {
                Some((v, end)) => Some((CounterState { timestamp: t, value: v }, end)),
                None => None,
            },
            None => None,
        }
    }
}

/// The mutation of a counter stream.
#[derive(Debug, Clone, Copy, PartialEq, Eq, Structural)]
pub enum CounterEvent {
    Increment(i64),
}

impl View for CounterEvent {
    type V = CounterEvent;

    open spec fn view(&self) -> CounterEvent {
        *self
    }
}

impl DataFraction for CounterEvent {
    open spec fn frac_wf(m: CounterEvent) -> bool {
        true
    }

    fn clone_frac(&self) -> (r: Self) {
        *self
    }

    open spec fn frac_enc(m: CounterEvent) -> Seq<u8> {
        match m {
            CounterEvent::Increment(delta) => enc_i64_spec(delta),
        }
    }

    open spec fn frac_parse(b: Seq<u8>) -> Option<(CounterEvent, Seq<u8>)> {
        match parse_i64(b) {
            Some((delta, rest)) => Some((CounterEvent::Increment(delta), rest)),
            None => None,
        }
    }

    proof fn frac_round(m: CounterEvent, rest: Seq<u8>) {
        match m {
            CounterEvent::Increment(delta) => {
                lemma_i64_round(delta, rest);
            },
        }
    }

    fn enc_frac(&self, buf: &mut Vec<u8>) {
        match self {
            CounterEvent::Increment(delta) => {
                enc_i64(buf, *delta);
            },
        }
    }

    fn dec_frac(data: &Vec<u8>, pos: usize) -> (r: Option<(CounterEvent, usize)>) {
        match dec_i64(data, pos) {
            Some((delta, end)) => Some((CounterEvent::Increment(delta), end)),
            None => None,
        }
    }
}

impl Flow for CounterState {
    type Action = CounterEvent;

    type Event = CounterEvent;

    open spec fn stream_type_spec() -> Seq<char> {
        "rillrate.counter.v0"@
    }

    open spec fn apply_spec(m: CounterState, ts: i64, ev: CounterEvent) -> CounterState {
        match ev {
            CounterEvent::Increment(delta) => (CounterState {
                timestamp: Some(Timestamp(ts)),
                value: vstd::wrapping::i64_specs::wrapping_add(m.value, delta),
            }),
        }
    }

    proof fn apply_preserves_wf(m: CounterState, ts: i64, ev: CounterEvent) {
    }

    fn stream_type() -> (r: StreamType) {
        StreamType::of_str("rillrate.counter.v0")
    }

    fn apply(&mut self, event: TimedEvent<CounterEvent>) {
        match event.event {
            CounterEvent::Increment(delta) => {
                self.timestamp = Some(event.timestamp);
                self.value = self.value.wrapping_add(delta);
            },
        }
    }

    open spec fn action_event_spec(a: CounterEvent) -> Option<CounterEvent> {
        Some(a)
    }

    fn action_event(action: CounterEvent) -> (r: Option<CounterEvent>) {
        Some(action)
    }
}

} // verus!
