//! The selector flow: a watched selection among declared options.
//!
//! Client actions ask for a selection; applying the induced event sets
//! the selection if and only if it is one of the declared options.

use vstd::prelude::*;

use crate::codec::dec_str;
use crate::codec::dec_strs;
use crate::codec::enc_str;
use crate::codec::enc_str_spec;
use crate::codec::enc_strs;
use crate::codec::enc_strs_spec;
use crate::codec::lemma_str_round;
use crate::codec::lemma_strs_round;
use crate::codec::parse_str;
use crate::codec::parse_strs;
use crate::codec::strs_models;
use crate::codec::strs_wf;
use crate::flow::DataFraction;
use crate::flow::Flow;
use crate::flow::Metric;
use crate::flow::TimedEvent;
use crate::provider::PackedMetric;
use crate::provider::StreamType;

verus! {

/// A copy of a list of strings with the same abstract values.
pub(crate) fn clone_strings(xs: &Vec<String>) -> (r: Vec<String>)
    ensures
        strs_models(r@) == strs_models(xs@),
{
    let mut out: Vec<String> = Vec::new();
    let n = xs.len();
    let mut i: usize = 0;
    while i < n
        invariant
            n == xs@.len(),
            i <= n,
            out@.len() == i,
            forall|k: int| 0 <= k < i ==> #[trigger] out@[k]@ == xs@[k]@,
        decreases n - i,
    {
        out.push(xs[i].clone());
        i = i + 1;
    }
    proof {
        assert forall|k: int| 0 <= k < n implies strs_models(out@)[k] == strs_models(xs@)[k] by {
            assert(out@[k]@ == xs@[k]@);
        }
        assert(strs_models(out@) =~= strs_models(xs@));
    }
    out
}

/// The abstract value of a selector's metadata.
#[verifier::ext_equal]
pub ghost struct SelectorFlowV {
    pub label: Seq<char>,
    pub options: Seq<Seq<char>>,
}

/// The metadata of a selector stream: its label and the declared
/// options.
#[derive(Debug, Clone)]
pub struct SelectorFlow {
    pub label: String,
    pub options: Vec<String>,
}

impl View for SelectorFlow {
    type V = SelectorFlowV;

    open spec fn view(&self) -> SelectorFlowV {
        SelectorFlowV { label: self.label@, options: strs_models(self.options@) }
    }
}

impl DataFraction for SelectorFlow {
    open spec fn frac_wf(m: SelectorFlowV) -> bool {
        &&& vstd::utf8::encode_utf8(m.label).len() <= u64::MAX
        &&& strs_wf(m.options)
    }

    fn clone_frac(&self) -> (r: Self) {
        let r = SelectorFlow { label: self.label.clone(), options: clone_strings(&self.options) };
        proof {
            assert(r@ =~= self@);
        }
        r
    }

    open spec fn frac_enc(m: SelectorFlowV) -> Seq<u8> {
        enc_str_spec(m.label) + enc_strs_spec(m.options)
    }

    open spec fn frac_parse(b: Seq<u8>) -> Option<(SelectorFlowV, Seq<u8>)> {
        match parse_str(b) {
            Some((label, rest)) => match parse_strs(rest) {
                Some((options, tail)) => Some((SelectorFlowV { label, options }, tail)),
                None => None,
            },
            None => None,
        }
    }

    proof fn frac_round(m: SelectorFlowV, rest: Seq<u8>) {
        assert(Self::frac_enc(m) + rest =~= enc_str_spec(m.label) + (enc_strs_spec(m.options)
            + rest));
        lemma_str_round(m.label, enc_strs_spec(m.options) + rest);
        lemma_strs_round(m.options, rest);
    }

    fn enc_frac(&self, buf: &mut Vec<u8>) {
        enc_str(buf, self.label.as_str());
        enc_strs(buf, &self.options);
        proof {
            assert(buf@ =~= old(buf)@ + Self::frac_enc(self@));
        }
    }

    fn dec_frac(data: &Vec<u8>, pos: usize) -> (r: Option<(SelectorFlow, usize)>) {
        match dec_str(data, pos) {
            Some((label, mid)) => match dec_strs(data, mid) {
                Some((options, end)) => Some((SelectorFlow { label, options }, end)),
                None => None,
            },
            None => None,
        }
    }
}

impl Metric for SelectorFlow {
    fn pack_metric(&self) -> (r: PackedMetric) {
        let mut buf: Vec<u8> = Vec::new();
        self.enc_frac(&mut buf);
        proof {
            assert(buf@ =~= Self::frac_enc(self@));
            crate::flow::lemma_state_round_trip::<SelectorFlow>(self@);
        }
        PackedMetric(buf)
    }

    fn unpack_metric(data: &PackedMetric) -> (r: Result<SelectorFlow, crate::codec::CodecError>) {
        proof {
            assert(data.0@.skip(0) =~= data@);
        }
        match Self::dec_frac(&data.0, 0) {
            Some((flow, end)) => {
                if end == data.0.len() {
                    proof {
                        assert(data@.skip(end as int) =~= Seq::<u8>::empty());
                    }
                    Ok(flow)
                } else {
                    proof {
                        assert(data@.skip(end as int).len() > 0);
                    }
                    Err(crate::codec::CodecError {})
                }
            },
            None => Err(crate::codec::CodecError {}),
        }
    }
}

/// The abstract value of a selector's state.
#[verifier::ext_equal]
pub ghost struct SelectorStateV {
    pub label: Seq<char>,
    pub options: Seq<Seq<char>>,
    pub selected: Seq<char>,
}

/// The state of a selector stream: its metadata and the current
/// selection.
#[derive(Debug, Clone)]
pub struct SelectorState {
    pub label: String,
    pub options: Vec<String>,
    pub selected: String,
}

impl SelectorState {
    /// A fresh selector state.
    pub fn new(label: String, options: Vec<String>, selected: String) -> (r: SelectorState)
        ensures
            r@ == (SelectorStateV {
                label: label@,
                options: strs_models(options@),
                selected: selected@,
            }),
    {
        SelectorState { label, options, selected }
    }
}

impl View for SelectorState {
    type V = SelectorStateV;

    open spec fn view(&self) -> SelectorStateV {
        SelectorStateV {
            label: self.label@,
            options: strs_models(self.options@),
            selected: self.selected@,
        }
    }
}

impl DataFraction for SelectorState {
    open spec fn frac_wf(m: SelectorStateV) -> bool {
        &&& vstd::utf8::encode_utf8(m.label).len() <= u64::MAX
        &&& strs_wf(m.options)
        &&& vstd::utf8::encode_utf8(m.selected).len() <= u64::MAX
    }

    fn clone_frac(&self) -> (r: Self) {
        let r = SelectorState {
            label: self.label.clone(),
            options: clone_strings(&self.options),
            selected: self.selected.clone(),
        };
        proof {
            assert(r@ =~= self@);
        }
        r
    }

    open spec fn frac_enc(m: SelectorStateV) -> Seq<u8> {
        enc_str_spec(m.label) + enc_strs_spec(m.options) + enc_str_spec(m.selected)
    }

    open spec fn frac_parse(b: Seq<u8>) -> Option<(SelectorStateV, Seq<u8>)> {
        match parse_str(b) {
            Some((label, rest)) => match parse_strs(rest) {
                Some((options, mid)) => match parse_str(mid) {
                    Some((selected, tail)) => Some(
                        (SelectorStateV { label, options, selected }, tail),
                    ),
                    None => None,
                },
                None => None,
            },
            None => None,
        }
    }

    proof fn frac_round(m: SelectorStateV, rest: Seq<u8>) {
        assert(Self::frac_enc(m) + rest =~= enc_str_spec(m.label) + (enc_strs_spec(m.options) + (
        enc_str_spec(m.selected) + rest)));
        lemma_str_round(m.label, enc_strs_spec(m.options) + (enc_str_spec(m.selected) + rest));
        lemma_strs_round(m.options, enc_str_spec(m.selected) + rest);
        lemma_str_round(m.selected, rest);
    }

    fn enc_frac(&self, buf: &mut Vec<u8>) {
        enc_str(buf, self.label.as_str());
        enc_strs(buf, &self.options);
        enc_str(buf, self.selected.as_str());
        proof {
            assert(buf@ =~= old(buf)@ + Self::frac_enc(self@));
        }
    }

    fn dec_frac(data: &Vec<u8>, pos: usize) -> (r: Option<(SelectorState, usize)>) {
        match dec_str(data, pos) {
            Some((label, p1)) => match dec_strs(data, p1) {
                Some((options, p2)) => match dec_str(data, p2) {
                    Some((selected, end)) => Some(
                        (SelectorState { label, options, selected }, end),
                    ),
                    None => None,
                },
                None => None,
            },
            None => None,
        }
    }
}

/// The mutation of a selector stream: a new selection was requested.
#[derive(Debug, Clone)]
pub struct SelectorEvent {
    pub select: String,
}

impl View for SelectorEvent {
    type V = Seq<char>;

    open spec fn view(&self) -> Seq<char> {
        self.select@
    }
}

impl DataFraction for SelectorEvent {
    open spec fn frac_wf(m: Seq<char>) -> bool {
        vstd::utf8::encode_utf8(m).len() <= u64::MAX
    }

    fn clone_frac(&self) -> (r: Self) {
        SelectorEvent { select: self.select.clone() }
    }

    open spec fn frac_enc(m: Seq<char>) -> Seq<u8> {
        enc_str_spec(m)
    }

    open spec fn frac_parse(b: Seq<u8>) -> Option<(Seq<char>, Seq<u8>)> {
        parse_str(b)
    }

    proof fn frac_round(m: Seq<char>, rest: Seq<u8>) {
        lemma_str_round(m, rest);
    }

    fn enc_frac(&self, buf: &mut Vec<u8>) {
        enc_str(buf, self.select.as_str());
    }

    fn dec_frac(data: &Vec<u8>, pos: usize) -> (r: Option<(SelectorEvent, usize)>) {
        match dec_str(data, pos) {
            Some((select, end)) => Some((SelectorEvent { select }, end)),
            None => None,
        }
    }
}

/// The client action of a selector stream: ask for a selection.
#[derive(Debug, Clone)]
pub struct SelectorAction {
    pub select: String,
}

impl View for SelectorAction {
    type V = Seq<char>;

    open spec fn view(&self) -> Seq<char> {
        self.select@
    }
}

impl DataFraction for SelectorAction {
    open spec fn frac_wf(m: Seq<char>) -> bool {
        vstd::utf8::encode_utf8(m).len() <= u64::MAX
    }

    fn clone_frac(&self) -> (r: Self) {
        SelectorAction { select: self.select.clone() }
    }

    open spec fn frac_enc(m: Seq<char>) -> Seq<u8> {
        enc_str_spec(m)
    }

    open spec fn frac_parse(b: Seq<u8>) -> Option<(Seq<char>, Seq<u8>)> {
        parse_str(b)
    }

    proof fn frac_round(m: Seq<char>, rest: Seq<u8>) {
        lemma_str_round(m, rest);
    }

    fn enc_frac(&self, buf: &mut Vec<u8>) {
        enc_str(buf, self.select.as_str());
    }

    fn dec_frac(data: &Vec<u8>, pos: usize) -> (r: Option<(SelectorAction, usize)>) {
        match dec_str(data, pos) {
            Some((select, end)) => Some((SelectorAction { select }, end)),
            None => None,
        }
    }
}

impl Flow for SelectorState {
    type Action = SelectorAction;

    type Event = SelectorEvent;

    open spec fn stream_type_spec() -> Seq<char> {
        "rillrate.selector.v0"@
    }

    open spec fn apply_spec(m: SelectorStateV, ts: i64, ev: Seq<char>) -> SelectorStateV {
        if m.options.contains(ev) {
            SelectorStateV { label: m.label, options: m.options, selected: ev }
        } else {
            m
        }
    }

    proof fn apply_preserves_wf(m: SelectorStateV, ts: i64, ev: Seq<char>) {
    }

    fn stream_type() -> (r: StreamType) {
        StreamType::of_str("rillrate.selector.v0")
    }

    fn apply(&mut self, event: TimedEvent<SelectorEvent>) {
        let n = self.options.len();
        let mut i: usize = 0;
        while i < n
            invariant
                n == self.options@.len(),
                i <= n,
                *self == *old(self),
                forall|k: int| 0 <= k < i ==> strs_models(self.options@)[k] != event.event.select@,
            decreases n - i,
        {
            if self.options[i] == event.event.select {
                proof {
                    assert(strs_models(self.options@)[i as int] == event.event.select@);
                    assert(self@.options.contains(event.event@));
                }
                self.selected = event.event.select;
                proof {
                    assert(self@ =~= Self::apply_spec(old(self)@, event.timestamp.0, event.event@));
                }
                return ;
            }
            proof {
                assert(strs_models(self.options@)[i as int] == self.options@[i as int]@);
            }
            i = i + 1;
        }
        proof {
            assert(!self@.options.contains(event.event@));
            assert(self@ =~= Self::apply_spec(old(self)@, event.timestamp.0, event.event@));
        }
    }

    open spec fn action_event_spec(a: Seq<char>) -> Option<Seq<char>> {
        Some(a)
    }

    fn action_event(action: SelectorAction) -> (r: Option<SelectorEvent>) {
        Some(SelectorEvent { select: action.select })
    }
}

} // verus!
