//! The histogram flow: bucket levels with counts.
//!
//! Each added value increments the bucket with the smallest upper bound
//! that is at least the value; values above every bound fall through and
//! leave the state unchanged.

use vstd::prelude::*;

use crate::codec::dec_i64;
use crate::codec::dec_u64;
use crate::codec::enc_i64;
use crate::codec::enc_i64_spec;
use crate::codec::enc_u64;
use crate::codec::lemma_i64_round;
use crate::codec::lemma_u64_round;
use crate::codec::parse_i64;
use crate::codec::parse_u64;
use crate::flow::dec_frac_list;
use crate::flow::enc_frac_list;
use crate::flow::frac_list_enc;
use crate::flow::frac_list_parse;
use crate::flow::frac_models;
use crate::flow::lemma_frac_list_round;
use crate::flow::DataFraction;
use crate::flow::Flow;
use crate::flow::TimedEvent;
use crate::provider::StreamType;

verus! {

/// One histogram bucket: its inclusive upper bound and how many values
/// fell into it.
#[derive(Debug, Clone, Copy, PartialEq, Eq, Structural)]
pub struct HistogramBucket {
    pub level: i64,
    pub count: u64,
}

impl View for HistogramBucket {
    type V = HistogramBucket;

    open spec fn view(&self) -> HistogramBucket {
        *self
    }
}

impl DataFraction for HistogramBucket {
    open spec fn frac_wf(m: HistogramBucket) -> bool {
        true
    }

    fn clone_frac(&self) -> (r: Self) {
        *self
    }

    open spec fn frac_enc(m: HistogramBucket) -> Seq<u8> {
        enc_i64_spec(m.level) + vstd::bytes::spec_u64_to_le_bytes(m.count)
    }

    open spec fn frac_parse(b: Seq<u8>) -> Option<(HistogramBucket, Seq<u8>)> {
        match parse_i64(b) {
            Some((level, rest)) => match parse_u64(rest) {
                Some((count, tail)) => Some((HistogramBucket { level, count }, tail)),
                None => None,
            },
            None => None,
        }
    }

    proof fn frac_round(m: HistogramBucket, rest: Seq<u8>) {
        assert(Self::frac_enc(m) + rest =~= enc_i64_spec(m.level)
            + (vstd::bytes::spec_u64_to_le_bytes(m.count) + rest));
        lemma_i64_round(m.level, vstd::bytes::spec_u64_to_le_bytes(m.count) + rest);
        lemma_u64_round(m.count, rest);
    }

    fn enc_frac(&self, buf: &mut Vec<u8>) {
        enc_i64(buf, self.level);
        enc_u64(buf, self.count);
        proof {
            assert(buf@ =~= old(buf)@ + Self::frac_enc(self@));
        }
    }

    fn dec_frac(data: &Vec<u8>, pos: usize) -> (r: Option<(HistogramBucket, usize)>) {
        match dec_i64(data, pos) {
            Some((level, mid)) => match dec_u64(data, mid) {
                Some((count, end)) => Some((HistogramBucket { level, count }, end)),
                None => None,
            },
            None => None,
        }
    }
}

/// The abstract value of a histogram state.
#[verifier::ext_equal]
pub ghost struct HistogramStateV {
    pub buckets: Seq<HistogramBucket>,
}

/// The state of a histogram stream.
#[derive(Debug, Clone)]
pub struct HistogramState {
    pub buckets: Vec<HistogramBucket>,
}

impl View for HistogramState {
    type V = HistogramStateV;

    open spec fn view(&self) -> HistogramStateV {
        HistogramStateV { buckets: frac_models(self.buckets@) }
    }
}

impl HistogramState {
    /// A fresh histogram whose buckets carry the given upper bounds and
    /// no values yet.
    pub fn new(levels: Vec<i64>) -> (r: HistogramState)
        ensures
            r@.buckets.len() == levels@.len(),
            forall|i: int|
                0 <= i < levels@.len() ==> r@.buckets[i] == (HistogramBucket {
                    level: levels@[i],
                    count: 0,
                }),
    {
        let n = levels.len();
        let mut buckets: Vec<HistogramBucket> = Vec::new();
        let mut i: usize = 0;
        while i < n
            invariant
                n == levels@.len(),
                i <= n,
                buckets@.len() == i,
                forall|k: int|
                    0 <= k < i ==> buckets@[k] == (HistogramBucket {
                        level: levels@[k],
                        count: 0,
                    }),
            decreases n - i,
        {
            buckets.push(HistogramBucket { level: levels[i], count: 0 });
            i = i + 1;
        }
        let r = HistogramState { buckets };
        proof {
            assert(forall|k: int|
                0 <= k < n ==> r@.buckets[k] == (HistogramBucket {
                    level: levels@[k],
                    count: 0,
                }));
        }
        r
    }
}

impl DataFraction for HistogramState {
    open spec fn frac_wf(m: HistogramStateV) -> bool {
        m.buckets.len() <= u64::MAX
    }

    fn clone_frac(&self) -> (r: Self) {
        let mut buckets: Vec<HistogramBucket> = Vec::new();
        let n = self.buckets.len();
        let mut i: usize = 0;
        while i < n
            invariant
                n == self.buckets@.len(),
                i <= n,
                buckets@ =~= self.buckets@.take(i as int),
            decreases n - i,
        {
            buckets.push(self.buckets[i]);
            proof {
                assert(buckets@ =~= self.buckets@.take(i + 1));
            }
            i = i + 1;
        }
        let r = HistogramState { buckets };
        proof {
            assert(self.buckets@.take(n as int) =~= self.buckets@);
            assert(r@ =~= self@);
        }
        r
    }

    open spec fn frac_enc(m: HistogramStateV) -> Seq<u8> {
        frac_list_enc::<HistogramBucket>(m.buckets)
    }

    open spec fn frac_parse(b: Seq<u8>) -> Option<(HistogramStateV, Seq<u8>)> {
        match frac_list_parse::<HistogramBucket>(b) {
            Some((buckets, rest)) => Some((HistogramStateV { buckets }, rest)),
            None => None,
        }
    }

    proof fn frac_round(m: HistogramStateV, rest: Seq<u8>) {
        lemma_frac_list_round::<HistogramBucket>(m.buckets, rest);
    }

    fn enc_frac(&self, buf: &mut Vec<u8>) {
        enc_frac_list::<HistogramBucket>(buf, &self.buckets);
    }

    fn dec_frac(data: &Vec<u8>, pos: usize) -> (r: Option<(HistogramState, usize)>) {
        match dec_frac_list::<HistogramBucket>(data, pos) {
            Some((buckets, end)) => {
                let n = buckets.len();
                let state = HistogramState { buckets };
                proof {
                    assert(state@.buckets.len() == n);
                }
                Some((state, end))
            },
            None => None,
        }
    }
}

/// The mutation of a histogram stream.
#[derive(Debug, Clone, Copy, PartialEq, Eq, Structural)]
pub enum HistogramEvent {
    Add(i64),
}

impl View for HistogramEvent {
    type V = HistogramEvent;

    open spec fn view(&self) -> HistogramEvent {
        *self
    }
}

impl DataFraction for HistogramEvent {
    open spec fn frac_wf(m: HistogramEvent) -> bool {
        true
    }

    fn clone_frac(&self) -> (r: Self) {
        *self
    }

    open spec fn frac_enc(m: HistogramEvent) -> Seq<u8> {
        match m {
            HistogramEvent::Add(value) => enc_i64_spec(value),
        }
    }

    open spec fn frac_parse(b: Seq<u8>) -> Option<(HistogramEvent, Seq<u8>)> {
        match parse_i64(b) {
            Some((value, rest)) => Some((HistogramEvent::Add(value), rest)),
            None => None,
        }
    }

    proof fn frac_round(m: HistogramEvent, rest: Seq<u8>) {
        match m {
            HistogramEvent::Add(value) => {
                lemma_i64_round(value, rest);
            },
        }
    }

    fn enc_frac(&self, buf: &mut Vec<u8>) {
        match self {
            HistogramEvent::Add(value) => {
                enc_i64(buf, *value);
            },
        }
    }

    fn dec_frac(data: &Vec<u8>, pos: usize) -> (r: Option<(HistogramEvent, usize)>) {
        match dec_i64(data, pos) {
            Some((value, end)) => Some((HistogramEvent::Add(value), end)),
            None => None,
        }
    }
}

/// The bucket an added value falls into, looking only at the first `n`
/// buckets: the first bucket with the smallest level at least `value`.
pub open spec fn hist_target_upto(buckets: Seq<HistogramBucket>, value: i64, n: int) -> Option<int>
    decreases n,
{
    if n <= 0 {
        None
    } else {
        let prev = hist_target_upto(buckets, value, n - 1);
        let candidate = buckets[n - 1];
        if candidate.level >= value {
            match prev {
                None => Some(n - 1),
                Some(j) => if candidate.level < buckets[j].level {
                    Some(n - 1)
                } else {
                    Some(j)
                },
            }
        } else {
            prev
        }
    }
}

/// The bucket an added value falls into, if any.
pub open spec fn hist_target(buckets: Seq<HistogramBucket>, value: i64) -> Option<int> {
    hist_target_upto(buckets, value, buckets.len() as int)
}

/// A target index is always in range.
pub proof fn lemma_hist_target_in_range(buckets: Seq<HistogramBucket>, value: i64, n: int)
    requires
        n <= buckets.len(),
    ensures
        hist_target_upto(buckets, value, n) matches Some(j) ==> 0 <= j < n,
    decreases n,
{
    if n > 0 {
        lemma_hist_target_in_range(buckets, value, n - 1);
    }
}

/// The effect of one histogram event on the abstract state.
pub open spec fn hist_apply_spec(m: HistogramStateV, ev: HistogramEvent) -> HistogramStateV {
    match ev {
        HistogramEvent::Add(value) => match hist_target(m.buckets, value) {
            Some(j) => (HistogramStateV {
                buckets: m.buckets.update(
                    j,
                    HistogramBucket {
                        level: m.buckets[j].level,
                        count: vstd::wrapping::u64_specs::wrapping_add(m.buckets[j].count, 1),
                    },
                ),
            }),
            None => m,
        },
    }
}

impl Flow for HistogramState {
    type Action = HistogramEvent;

    type Event = HistogramEvent;

    open spec fn stream_type_spec() -> Seq<char> {
        "rillrate.histogram.v0"@
    }

    open spec fn apply_spec(m: HistogramStateV, ts: i64, ev: HistogramEvent) -> HistogramStateV {
        hist_apply_spec(m, ev)
    }

    proof fn apply_preserves_wf(m: HistogramStateV, ts: i64, ev: HistogramEvent) {
        match ev {
            HistogramEvent::Add(value) => {
                lemma_hist_target_in_range(m.buckets, value, m.buckets.len() as int);
            },
        }
    }

    fn stream_type() -> (r: StreamType) {
        StreamType::of_str("rillrate.histogram.v0")
    }

    fn apply(&mut self, event: TimedEvent<HistogramEvent>) {
        let value = match event.event {
            HistogramEvent::Add(v) => v,
        };
        let n = self.buckets.len();
        let mut best: Option<usize> = None;
        let mut i: usize = 0;
        while i < n
            invariant
                n == self.buckets@.len(),
                i <= n,
                *self == *old(self),
                (match best {
                    Some(j) => j < i && hist_target_upto(self@.buckets, value, i as int) == Some(
                        j as int,
                    ),
                    None => hist_target_upto(self@.buckets, value, i as int) is None,
                }),
            decreases n - i,
        {
            let candidate = self.buckets[i];
            proof {
                assert(self@.buckets[i as int] == candidate);
            }
            if candidate.level >= value {
                match best {
                    None => {
                        best = Some(i);
                    },
                    Some(j) => {
                        if candidate.level < self.buckets[j].level {
                            best = Some(i);
                        }
                    },
                }
            }
            i = i + 1;
        }
        proof {
            assert(hist_target(self@.buckets, value) == hist_target_upto(
                self@.buckets,
                value,
                n as int,
            ));
        }
        match best {
            Some(j) => {
                let level = self.buckets[j].level;
                let count = self.buckets[j].count.wrapping_add(1);
                self.buckets.set(j, HistogramBucket { level, count });
                proof {
                    assert(frac_models(self.buckets@) =~= old(self)@.buckets.update(
                        j as int,
                        HistogramBucket { level, count },
                    ));
                    assert(self@ =~= Self::apply_spec(old(self)@, event.timestamp.0, event.event));
                }
            },
            None => {
                proof {
                    assert(self@ =~= Self::apply_spec(old(self)@, event.timestamp.0, event.event));
                }
            },
        }
    }

    open spec fn action_event_spec(a: HistogramEvent) -> Option<HistogramEvent> {
        Some(a)
    }

    fn action_event(action: HistogramEvent) -> (r: Option<HistogramEvent>) {
        Some(action)
    }
}

} // verus!
