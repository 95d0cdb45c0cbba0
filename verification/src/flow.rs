//! The data contract of a stream.
//!
//! A `Flow` value is the mutable state of one stream; its types name the
//! events that mutate it and the client actions that drive it.  Every
//! fraction of the contract (state, event, action) carries a byte codec
//! with a proved round trip: unpacking a packed value yields the value
//! back, and replaying a packed delta folds to the same state as
//! replaying the delta itself.

use vstd::prelude::*;

use crate::codec::enc_i64_spec;
use crate::codec::enc_counted_spec;
use crate::codec::enc_u64;
use crate::codec::enc_i64;
use crate::codec::dec_u64;
use crate::codec::dec_i64;
use crate::codec::lemma_i64_round;
use crate::codec::lemma_counted_round;
use crate::codec::lemma_enc_list_snoc;
use crate::codec::parse_counted;
use crate::codec::parse_i64;
use crate::codec::parse_list;
use crate::codec::CodecError;
use crate::provider::PackedAction;
use crate::provider::PackedMetric;
use crate::provider::PackedDelta;
use crate::provider::PackedState;
use crate::provider::StreamType;
use crate::provider::Timestamp;

verus! {

/// A pair of a timestamp and an event; ordering and equality go by the
/// timestamp only, to enable merge-by-time downstream.
#[derive(Debug, Clone)]
pub struct TimedEvent<T> {
    pub timestamp: Timestamp,
    pub event: T,
}

impl<T: View> View for TimedEvent<T> {
    type V = (i64, <T as View>::V);

    open spec fn view(&self) -> (i64, <T as View>::V) {
        (self.timestamp.0, self.event@)
    }
}

impl<T> TimedEvent<T> {
    /// Drops the timestamp and hands the event out.
    pub fn into_inner(self) -> (r: T)
        ensures
            r == self.event,
    {
        self.event
    }
}

impl<T> PartialEq for TimedEvent<T> {
    fn eq(&self, other: &TimedEvent<T>) -> bool {
        self.timestamp.0 == other.timestamp.0
    }
}

impl<T> vstd::std_specs::cmp::PartialEqSpecImpl for TimedEvent<T> {
    open spec fn obeys_eq_spec() -> bool {
        true
    }

    open spec fn eq_spec(&self, other: &TimedEvent<T>) -> bool {
        self.timestamp == other.timestamp
    }
}

impl<T> PartialOrd for TimedEvent<T> {
    fn partial_cmp(&self, other: &TimedEvent<T>) -> Option<core::cmp::Ordering> {
        if self.timestamp.0 < other.timestamp.0 {
            Some(core::cmp::Ordering::Less)
        } else if self.timestamp.0 == other.timestamp.0 {
            Some(core::cmp::Ordering::Equal)
        } else {
            Some(core::cmp::Ordering::Greater)
        }
    }
}

impl<T> vstd::std_specs::cmp::PartialOrdSpecImpl for TimedEvent<T> {
    open spec fn obeys_partial_cmp_spec() -> bool {
        true
    }

    open spec fn partial_cmp_spec(&self, other: &TimedEvent<T>) -> Option<core::cmp::Ordering> {
        if self.timestamp.0 < other.timestamp.0 {
            Some(core::cmp::Ordering::Less)
        } else if self.timestamp.0 == other.timestamp.0 {
            Some(core::cmp::Ordering::Equal)
        } else {
            Some(core::cmp::Ordering::Greater)
        }
    }
}

/// A fraction of a data flow that can travel in a packed payload: it has
/// an abstract value, a byte encoding of that value, and a parser that
/// provably undoes the encoding.
pub trait DataFraction: View + Sized {
    /// Which abstract values arise at run time; encodings of such values
    /// fit their length prefixes.
    spec fn frac_wf(m: <Self as View>::V) -> bool;

    /// The byte encoding of an abstract value.
    spec fn frac_enc(m: <Self as View>::V) -> Seq<u8>;

    /// Parses one value from the front of `b`.
    spec fn frac_parse(b: Seq<u8>) -> Option<(<Self as View>::V, Seq<u8>)>;

    /// Parsing undoes encoding.
    proof fn frac_round(m: <Self as View>::V, rest: Seq<u8>)
        requires
            Self::frac_wf(m),
        ensures
            Self::frac_parse(Self::frac_enc(m) + rest) == Some((m, rest)),
    ;

    /// Appends the encoding of this value to `buf`.
    fn enc_frac(&self, buf: &mut Vec<u8>)
        ensures
            final(buf)@ == old(buf)@ + Self::frac_enc(self@),
            Self::frac_wf(self@),
    ;

    /// A copy of this value with the same abstract value.
    fn clone_frac(&self) -> (r: Self)
        ensures
            r@ == self@,
    ;

    /// Decodes one value at position `pos` of `data`.
    fn dec_frac(data: &Vec<u8>, pos: usize) -> (r: Option<(Self, usize)>)
        requires
            pos <= data@.len(),
        ensures
            r matches Some(p) ==> {
                &&& pos <= p.1 <= data@.len()
                &&& Self::frac_parse(data@.skip(pos as int)) == Some(
                    (p.0@, data@.skip(p.1 as int)),
                )
                &&& Self::frac_wf(p.0@)
            },
            r is None ==> Self::frac_parse(data@.skip(pos as int)) is None,
    ;
}

/// The immutable contract of a stream: the flow value is its mutable
/// state, `Event` the mutation a producer emits, `Action` the command a
/// client sends.
pub trait Flow: DataFraction {
    /// What a client sends to drive the state (watched flows).
    type Action: DataFraction;

    /// What a producer emits to mutate the state.
    type Event: DataFraction;

    /// The name of the stream kind, carrying its version token.
    spec fn stream_type_spec() -> Seq<char>;

    /// The effect of folding one timed event into a state.
    spec fn apply_spec(m: <Self as View>::V, ts: i64, ev: <Self::Event as View>::V) -> <Self as View>::V;

    /// Folding preserves the well-formed values.
    proof fn apply_preserves_wf(m: <Self as View>::V, ts: i64, ev: <Self::Event as View>::V)
        requires
            Self::frac_wf(m),
            <Self::Event as DataFraction>::frac_wf(ev),
        ensures
            Self::frac_wf(Self::apply_spec(m, ts, ev)),
    ;

    /// The name of the stream kind.
    fn stream_type() -> (r: StreamType)
        ensures
            r@ == Self::stream_type_spec(),
    ;

    /// Folds one timed event into the state.
    fn apply(&mut self, event: TimedEvent<Self::Event>)
        ensures
            final(self)@ == Self::apply_spec(old(self)@, event.timestamp.0, event.event@),
    ;

    /// The event a client action induces, if the action induces one.
    spec fn action_event_spec(a: <Self::Action as View>::V) -> Option<<Self::Event as View>::V>;

    /// Turns a client action into the event it induces.
    fn action_event(action: Self::Action) -> (r: Option<Self::Event>)
        ensures
            r matches Some(ev) ==> Self::action_event_spec(action@) == Some(ev@),
            r is None ==> Self::action_event_spec(action@) is None,
            r matches Some(ev) ==> (<Self::Action as DataFraction>::frac_wf(action@)
                ==> <Self::Event as DataFraction>::frac_wf(ev@)),
    ;
}

/// The immutable metadata of a stream kind, packable for a description.
pub trait Metric: DataFraction {
    /// Packs the metadata for a description.
    fn pack_metric(&self) -> (r: PackedMetric)
        ensures
            r@ == Self::frac_enc(self@),
            Self::frac_wf(self@),
            unpack_state_spec::<Self>(r@) == Some(self@),
    ;

    /// Unpacks metadata from a description; payloads that do not parse
    /// exactly are rejected.
    fn unpack_metric(data: &PackedMetric) -> (r: Result<Self, CodecError>)
        ensures
            r matches Ok(m) ==> unpack_state_spec::<Self>(data@) == Some(m@) && Self::frac_wf(m@),
            r is Err ==> unpack_state_spec::<Self>(data@) is None,
    ;
}

impl crate::provider::Description {
    /// Unpacks the flow metadata this description carries.
    pub fn try_extract_metric<T: Metric>(&self) -> (r: Result<T, CodecError>)
        ensures
            r matches Ok(m) ==> unpack_state_spec::<T>(self.metadata@) == Some(m@),
            r is Err ==> unpack_state_spec::<T>(self.metadata@) is None,
    {
        T::unpack_metric(&self.metadata)
    }
}

/// The abstract values of a delta: the timestamps and event values, in
/// order.
pub open spec fn delta_models<E: DataFraction>(d: Seq<TimedEvent<E>>) -> Seq<(i64, <E as View>::V)> {
    d.map(|i: int, te: TimedEvent<E>| te@)
}

/// The encoding of one timed event.
pub open spec fn timed_enc<E: DataFraction>(m: (i64, <E as View>::V)) -> Seq<u8> {
    enc_i64_spec(m.0) + E::frac_enc(m.1)
}

/// Parses one timed event.
pub open spec fn timed_parse<E: DataFraction>(b: Seq<u8>) -> Option<((i64, <E as View>::V), Seq<u8>)> {
    match parse_i64(b) {
        Some((ts, rest)) => match E::frac_parse(rest) {
            Some((ev, tail)) => Some(((ts, ev), tail)),
            None => None,
        },
        None => None,
    }
}

/// Parsing undoes encoding for one timed event.
pub proof fn lemma_timed_round<E: DataFraction>(m: (i64, <E as View>::V), rest: Seq<u8>)
    requires
        E::frac_wf(m.1),
    ensures
        timed_parse::<E>(timed_enc::<E>(m) + rest) == Some((m, rest)),
{
    assert(timed_enc::<E>(m) + rest =~= enc_i64_spec(m.0) + (E::frac_enc(m.1) + rest));
    lemma_i64_round(m.0, E::frac_enc(m.1) + rest);
    E::frac_round(m.1, rest);
}

/// The encoder of one timed event, as a function value.
pub open spec fn timed_encoder<E: DataFraction>() -> spec_fn((i64, <E as View>::V)) -> Seq<u8> {
    |m: (i64, <E as View>::V)| timed_enc::<E>(m)
}

/// The parser of one timed event, as a function value.
pub open spec fn timed_parser<E: DataFraction>() -> spec_fn(Seq<u8>) -> Option<
    ((i64, <E as View>::V), Seq<u8>),
> {
    |b: Seq<u8>| timed_parse::<E>(b)
}

/// The encoding of a whole delta: a count, then the timed events.
pub open spec fn delta_enc<E: DataFraction>(d: Seq<(i64, <E as View>::V)>) -> Seq<u8> {
    enc_counted_spec(d, timed_encoder::<E>())
}

/// The abstract value a packed delta decodes to, if any: the parse must
/// consume the payload exactly.
pub open spec fn unpack_delta_spec<E: DataFraction>(b: Seq<u8>) -> Option<
    Seq<(i64, <E as View>::V)>,
> {
    match parse_counted(b, timed_parser::<E>()) {
        Some((d, rest)) => if rest.len() == 0 {
            Some(d)
        } else {
            None
        },
        None => None,
    }
}

/// Every event of a delta is well formed.
pub open spec fn delta_wf<E: DataFraction>(d: Seq<(i64, <E as View>::V)>) -> bool {
    forall|i: int| 0 <= i < d.len() ==> E::frac_wf(#[trigger] d[i].1)
}

/// Parsing undoes encoding for a counted list of timed events.
pub proof fn lemma_timed_list_round<E: DataFraction>(d: Seq<(i64, <E as View>::V)>, rest: Seq<u8>)
    requires
        delta_wf::<E>(d),
        d.len() <= u64::MAX,
    ensures
        parse_counted(delta_enc::<E>(d) + rest, timed_parser::<E>()) == Some((d, rest)),
{
    let e = timed_encoder::<E>();
    let p = timed_parser::<E>();
    assert forall|i: int, r: Seq<u8>| 0 <= i < d.len() implies #[trigger] p(e(d[i]) + r) == Some(
        (d[i], r),
    ) by {
        assert(timed_encoder::<E>()(d[i]) == timed_enc::<E>(d[i]));
        assert(timed_parser::<E>()(timed_enc::<E>(d[i]) + r) == timed_parse::<E>(timed_enc::<E>(
            d[i],
        ) + r));
        lemma_timed_round::<E>(d[i], r);
    }
    lemma_counted_round(d, rest, e, p);
}

/// Unpacking undoes packing for a delta: the packing round trip of the
/// delta stream.
pub proof fn lemma_delta_round_trip<E: DataFraction>(d: Seq<(i64, <E as View>::V)>)
    requires
        delta_wf::<E>(d),
        d.len() <= u64::MAX,
    ensures
        unpack_delta_spec::<E>(delta_enc::<E>(d)) == Some(d),
{
    lemma_timed_list_round::<E>(d, Seq::<u8>::empty());
    assert(delta_enc::<E>(d) + Seq::<u8>::empty() =~= delta_enc::<E>(d));
}

/// The abstract value a packed state decodes to, if any.
pub open spec fn unpack_state_spec<F: DataFraction>(b: Seq<u8>) -> Option<<F as View>::V> {
    match F::frac_parse(b) {
        Some((m, rest)) => if rest.len() == 0 {
            Some(m)
        } else {
            None
        },
        None => None,
    }
}

/// Unpacking undoes packing for a state: `unpack(pack(x)) == x`.
pub proof fn lemma_state_round_trip<F: DataFraction>(m: <F as View>::V)
    requires
        F::frac_wf(m),
    ensures
        unpack_state_spec::<F>(F::frac_enc(m)) == Some(m),
{
    F::frac_round(m, Seq::<u8>::empty());
    assert(F::frac_enc(m) + Seq::<u8>::empty() =~= F::frac_enc(m));
}

/// Folding one more event folds it into the folded state.
pub proof fn lemma_fold_apply_snoc<F: Flow>(
    m: <F as View>::V,
    d: Seq<(i64, <<F as Flow>::Event as View>::V)>,
    x: (i64, <<F as Flow>::Event as View>::V),
)
    ensures
        fold_apply::<F>(m, d.push(x)) == F::apply_spec(fold_apply::<F>(m, d), x.0, x.1),
    decreases d.len(),
{
    if d.len() == 0 {
        assert(d.push(x)[0] == x);
        assert(d.push(x).skip(1) =~= Seq::<(i64, <<F as Flow>::Event as View>::V)>::empty());
        assert(fold_apply::<F>(F::apply_spec(m, x.0, x.1), d.push(x).skip(1)) == F::apply_spec(
            fold_apply::<F>(m, d),
            x.0,
            x.1,
        ));
    } else {
        assert(d.push(x).skip(1) =~= d.skip(1).push(x));
        lemma_fold_apply_snoc::<F>(F::apply_spec(m, d[0].0, d[0].1), d.skip(1), x);
    }
}

/// Folding a delta into a state, one timed event at a time.
pub open spec fn fold_apply<F: Flow>(m: <F as View>::V, d: Seq<(i64, <<F as Flow>::Event as View>::V)>) -> <F as View>::V
    decreases d.len(),
{
    if d.len() == 0 {
        m
    } else {
        fold_apply::<F>(F::apply_spec(m, d[0].0, d[0].1), d.skip(1))
    }
}

/// Replaying the unpacked form of a packed delta folds to the same state
/// as replaying the delta itself: determinism of the delta stream under
/// the codec.
pub proof fn lemma_delta_replay<F: Flow>(s0: <F as View>::V, d: Seq<(i64, <<F as Flow>::Event as View>::V)>)
    requires
        delta_wf::<<F as Flow>::Event>(d),
        d.len() <= u64::MAX,
    ensures
        unpack_delta_spec::<<F as Flow>::Event>(delta_enc::<<F as Flow>::Event>(d)) matches Some(
            d2,
        ) && fold_apply::<F>(s0, d2) == fold_apply::<F>(s0, d),
{
    lemma_delta_round_trip::<<F as Flow>::Event>(d);
}

/// Packs a state for the wire.
pub fn pack_state<F: DataFraction>(state: &F) -> (r: PackedState)
    ensures
        r@ == F::frac_enc(state@),
        F::frac_wf(state@),
        unpack_state_spec::<F>(r@) == Some(state@),
{
    let mut buf: Vec<u8> = Vec::new();
    state.enc_frac(&mut buf);
    proof {
        assert(buf@ =~= F::frac_enc(state@));
        lemma_state_round_trip::<F>(state@);
    }
    PackedState(buf)
}

/// Unpacks a state from the wire; payloads that do not parse exactly are
/// rejected.
pub fn unpack_state<F: DataFraction>(data: &PackedState) -> (r: Result<F, CodecError>)
    ensures
        r matches Ok(s) ==> unpack_state_spec::<F>(data@) == Some(s@) && F::frac_wf(s@),
        r is Err ==> unpack_state_spec::<F>(data@) is None,
{
    proof {
        assert(data.0@.skip(0) =~= data@);
    }
    match F::dec_frac(&data.0, 0) {
        Some((state, end)) => {
            if end == data.0.len() {
                proof {
                    assert(data@.skip(end as int) =~= Seq::<u8>::empty());
                }
                Ok(state)
            } else {
                proof {
                    assert(data@.skip(end as int).len() > 0);
                }
                Err(CodecError {})
            }
        },
        None => Err(CodecError {}),
    }
}

/// Appends the encoding of an ordered batch of timed events to `buf`.
pub fn enc_timed_list<E: DataFraction>(buf: &mut Vec<u8>, delta: &Vec<TimedEvent<E>>)
    ensures
        final(buf)@ == old(buf)@ + delta_enc::<E>(delta_models(delta@)),
        delta_wf::<E>(delta_models(delta@)),
        delta_models(delta@).len() <= u64::MAX,
{
    let ghost models = delta_models(delta@);
    let ghost e = timed_encoder::<E>();
    let ghost base = buf@;
    let n = delta.len();
    enc_u64(buf, n as u64);
    let ghost header = buf@;
    let mut i: usize = 0;
    while i < n
        invariant
            n == delta@.len(),
            i <= n,
            models == delta_models(delta@),
            e == timed_encoder::<E>(),
            header == base + vstd::bytes::spec_u64_to_le_bytes(n as u64),
            buf@ == header + crate::codec::enc_list_spec(models.take(i as int), e),
            forall|k: int| 0 <= k < i ==> E::frac_wf(#[trigger] models[k].1),
        decreases n - i,
    {
        let te = &delta[i];
        enc_i64(buf, te.timestamp.as_millis());
        te.event.enc_frac(buf);
        proof {
            assert(models[i as int] == delta@[i as int]@);
            assert(models.take(i + 1) =~= models.take(i as int).push(models[i as int]));
            lemma_enc_list_snoc(models.take(i as int), models[i as int], e);
            assert(e == timed_encoder::<E>());
            assert(timed_encoder::<E>()(models[i as int]) == timed_enc::<E>(models[i as int]));
            assert(e(models[i as int]) == timed_enc::<E>(models[i as int]));
            assert(timed_enc::<E>(models[i as int]) == enc_i64_spec(delta@[i as int].timestamp.0)
                + E::frac_enc(delta@[i as int].event@));
            assert(buf@ =~= header + crate::codec::enc_list_spec(models.take(i + 1), e));
        }
        i = i + 1;
    }
    proof {
        assert(models.take(n as int) =~= models);
        assert(buf@ =~= base + delta_enc::<E>(models));
    }
}

/// Packs an ordered batch of timed events for the wire.
pub fn pack_delta<E: DataFraction>(delta: &Vec<TimedEvent<E>>) -> (r: PackedDelta)
    ensures
        r@ == delta_enc::<E>(delta_models(delta@)),
        delta_wf::<E>(delta_models(delta@)),
        unpack_delta_spec::<E>(r@) == Some(delta_models(delta@)),
{
    let mut buf: Vec<u8> = Vec::new();
    enc_timed_list(&mut buf, delta);
    proof {
        assert(buf@ =~= delta_enc::<E>(delta_models(delta@)));
        lemma_delta_round_trip::<E>(delta_models(delta@));
    }
    PackedDelta(buf)
}

/// Decodes an ordered batch of timed events at position `pos` of `data`.
pub fn dec_timed_list<E: DataFraction>(data: &Vec<u8>, pos: usize) -> (r: Option<
    (Vec<TimedEvent<E>>, usize),
>)
    requires
        pos <= data@.len(),
    ensures
        r matches Some(q) ==> {
            &&& pos <= q.1 <= data@.len()
            &&& parse_counted(data@.skip(pos as int), timed_parser::<E>()) == Some(
                (delta_models(q.0@), data@.skip(q.1 as int)),
            )
            &&& delta_wf::<E>(delta_models(q.0@))
        },
        r is None ==> parse_counted(data@.skip(pos as int), timed_parser::<E>()) is None,
{
    let ghost p = timed_parser::<E>();
    let ghost whole = data@.skip(pos as int);
    let count = match dec_u64(data, pos) {
        Some(pair) => pair,
        None => {
            return None;
        },
    };
    let n = count.0;
    let mut cur = count.1;
    let ghost base = data@.skip(cur as int);
    let mut out: Vec<TimedEvent<E>> = Vec::new();
    let mut i: u64 = 0;
    proof {
        let r0 = parse_list(base, n as nat, p);
        match r0 {
            Some(q) => {
                assert(delta_models(out@) + q.0 =~= q.0);
            },
            None => {},
        }
    }
    while i < n
        invariant
            i <= n,
            pos <= cur <= data@.len(),
            out@.len() == i,
            p == timed_parser::<E>(),
            whole == data@.skip(pos as int),
            parse_counted(whole, p) == parse_list(base, n as nat, p),
            forall|k: int| 0 <= k < i ==> E::frac_wf(#[trigger] delta_models(out@)[k].1),
            (match parse_list(data@.skip(cur as int), (n - i) as nat, p) {
                Some(q) => parse_list(base, n as nat, p) == Some((delta_models(out@) + q.0, q.1)),
                None => parse_list(base, n as nat, p) is None,
            }),
        decreases n - i,
    {
        let ghost rem = data@.skip(cur as int);
        let ghost out_before = delta_models(out@);
        let ts = match dec_i64(data, cur) {
            Some(pair) => pair,
            None => {
                proof {
                    assert(timed_parser::<E>()(rem) == timed_parse::<E>(rem));
                    assert(p(rem) is None);
                    assert(parse_list(rem, (n - i) as nat, p) is None);
                }
                return None;
            },
        };
        let ev = match E::dec_frac(data, ts.1) {
            Some(pair) => pair,
            None => {
                proof {
                    assert(timed_parser::<E>()(rem) == timed_parse::<E>(rem));
                    assert(p(rem) is None);
                    assert(parse_list(rem, (n - i) as nat, p) is None);
                }
                return None;
            },
        };
        let te = TimedEvent { timestamp: Timestamp(ts.0), event: ev.0 };
        out.push(te);
        cur = ev.1;
        proof {
            assert(timed_parser::<E>()(rem) == timed_parse::<E>(rem));
            assert(p(rem) == Some(((ts.0, ev.0@), data@.skip(cur as int))));
            assert(delta_models(out@) =~= out_before.push((ts.0, ev.0@)));
            let r1 = parse_list(data@.skip(cur as int), (n - i - 1) as nat, p);
            match r1 {
                Some(q) => {
                    assert(parse_list(rem, (n - i) as nat, p) == Some(
                        (seq![(ts.0, ev.0@)] + q.0, q.1),
                    ));
                    assert(out_before + (seq![(ts.0, ev.0@)] + q.0) =~= delta_models(out@)
                        + q.0);
                },
                None => {
                    assert(parse_list(rem, (n - i) as nat, p) is None);
                },
            }
        }
        i = i + 1;
    }
    proof {
        assert(parse_list(data@.skip(cur as int), 0, p) == Some(
            (Seq::<(i64, <E as View>::V)>::empty(), data@.skip(cur as int)),
        ));
        assert(delta_models(out@) + Seq::<(i64, <E as View>::V)>::empty() =~= delta_models(out@));
    }
    Some((out, cur))
}

/// Unpacks an ordered batch of timed events from the wire; payloads that
/// do not parse exactly are rejected.
pub fn unpack_delta<E: DataFraction>(data: &PackedDelta) -> (r: Result<
    Vec<TimedEvent<E>>,
    CodecError,
>)
    ensures
        r matches Ok(d) ==> unpack_delta_spec::<E>(data@) == Some(delta_models(d@)) && delta_wf::<
            E,
        >(delta_models(d@)),
        r is Err ==> unpack_delta_spec::<E>(data@) is None,
{
    proof {
        assert(data.0@.skip(0) =~= data@);
    }
    match dec_timed_list::<E>(&data.0, 0) {
        Some((out, end)) => {
            if end == data.0.len() {
                proof {
                    assert(data@.skip(end as int) =~= Seq::<u8>::empty());
                }
                Ok(out)
            } else {
                proof {
                    assert(data@.skip(end as int).len() > 0);
                }
                Err(CodecError {})
            }
        },
        None => Err(CodecError {}),
    }
}

/// Packs a client action for the wire.
pub fn pack_action<A: DataFraction>(action: &A) -> (r: PackedAction)
    ensures
        r@ == A::frac_enc(action@),
        A::frac_wf(action@),
        unpack_state_spec::<A>(r@) == Some(action@),
{
    let mut buf: Vec<u8> = Vec::new();
    action.enc_frac(&mut buf);
    proof {
        assert(buf@ =~= A::frac_enc(action@));
        lemma_state_round_trip::<A>(action@);
    }
    PackedAction(buf)
}

/// Unpacks a client action from the wire; payloads that do not parse
/// exactly are rejected.
pub fn unpack_action<A: DataFraction>(data: &PackedAction) -> (r: Result<A, CodecError>)
    ensures
        r matches Ok(a) ==> unpack_state_spec::<A>(data@) == Some(a@) && A::frac_wf(a@),
        r is Err ==> unpack_state_spec::<A>(data@) is None,
{
    proof {
        assert(data.0@.skip(0) =~= data@);
    }
    match A::dec_frac(&data.0, 0) {
        Some((action, end)) => {
            if end == data.0.len() {
                proof {
                    assert(data@.skip(end as int) =~= Seq::<u8>::empty());
                }
                Ok(action)
            } else {
                proof {
                    assert(data@.skip(end as int).len() > 0);
                }
                Err(CodecError {})
            }
        },
        None => Err(CodecError {}),
    }
}

/// The abstract values of a list of fractions.
pub open spec fn frac_models<A: DataFraction>(xs: Seq<A>) -> Seq<<A as View>::V> {
    xs.map(|i: int, x: A| x@)
}

/// The encoder of one fraction, as a function value.
pub open spec fn frac_encoder<A: DataFraction>() -> spec_fn(<A as View>::V) -> Seq<u8> {
    |m: <A as View>::V| A::frac_enc(m)
}

/// The parser of one fraction, as a function value.
pub open spec fn frac_parser<A: DataFraction>() -> spec_fn(Seq<u8>) -> Option<
    (<A as View>::V, Seq<u8>),
> {
    |b: Seq<u8>| A::frac_parse(b)
}

/// Every value of a list of fractions is well formed.
pub open spec fn frac_list_wf<A: DataFraction>(d: Seq<<A as View>::V>) -> bool {
    forall|i: int| 0 <= i < d.len() ==> A::frac_wf(#[trigger] d[i])
}

/// The encoding of a list of fractions: a count, then the elements.
pub open spec fn frac_list_enc<A: DataFraction>(d: Seq<<A as View>::V>) -> Seq<u8> {
    enc_counted_spec(d, frac_encoder::<A>())
}

/// Parses a counted list of fractions.
pub open spec fn frac_list_parse<A: DataFraction>(b: Seq<u8>) -> Option<
    (Seq<<A as View>::V>, Seq<u8>),
> {
    parse_counted(b, frac_parser::<A>())
}

/// Parsing undoes encoding for a counted list of fractions.
pub proof fn lemma_frac_list_round<A: DataFraction>(d: Seq<<A as View>::V>, rest: Seq<u8>)
    requires
        frac_list_wf::<A>(d),
        d.len() <= u64::MAX,
    ensures
        frac_list_parse::<A>(frac_list_enc::<A>(d) + rest) == Some((d, rest)),
{
    let e = frac_encoder::<A>();
    let p = frac_parser::<A>();
    assert forall|i: int, r: Seq<u8>| 0 <= i < d.len() implies #[trigger] p(e(d[i]) + r) == Some(
        (d[i], r),
    ) by {
        assert(frac_encoder::<A>()(d[i]) == A::frac_enc(d[i]));
        assert(frac_parser::<A>()(A::frac_enc(d[i]) + r) == A::frac_parse(A::frac_enc(d[i]) + r));
        A::frac_round(d[i], r);
    }
    lemma_counted_round(d, rest, e, p);
}

/// Appends the encoding of a list of fractions to `buf`.
pub fn enc_frac_list<A: DataFraction>(buf: &mut Vec<u8>, xs: &Vec<A>)
    ensures
        final(buf)@ == old(buf)@ + frac_list_enc::<A>(frac_models(xs@)),
        frac_list_wf::<A>(frac_models(xs@)),
        frac_models(xs@).len() <= u64::MAX,
{
    let ghost models = frac_models(xs@);
    let ghost e = frac_encoder::<A>();
    let ghost base = buf@;
    let n = xs.len();
    enc_u64(buf, n as u64);
    let ghost header = buf@;
    let mut i: usize = 0;
    while i < n
        invariant
            n == xs@.len(),
            i <= n,
            models == frac_models(xs@),
            e == frac_encoder::<A>(),
            header == base + vstd::bytes::spec_u64_to_le_bytes(n as u64),
            buf@ == header + crate::codec::enc_list_spec(models.take(i as int), e),
            forall|k: int| 0 <= k < i ==> A::frac_wf(#[trigger] models[k]),
        decreases n - i,
    {
        xs[i].enc_frac(buf);
        proof {
            assert(models[i as int] == xs@[i as int]@);
            assert(models.take(i + 1) =~= models.take(i as int).push(models[i as int]));
            lemma_enc_list_snoc(models.take(i as int), models[i as int], e);
            assert(frac_encoder::<A>()(models[i as int]) == A::frac_enc(models[i as int]));
            assert(e(models[i as int]) == A::frac_enc(models[i as int]));
            assert(buf@ =~= header + crate::codec::enc_list_spec(models.take(i + 1), e));
        }
        i = i + 1;
    }
    proof {
        assert(models.take(n as int) =~= models);
        assert(buf@ =~= base + frac_list_enc::<A>(models));
    }
}

/// Decodes a counted list of fractions at position `pos` of `data`.
pub fn dec_frac_list<A: DataFraction>(data: &Vec<u8>, pos: usize) -> (r: Option<(Vec<A>, usize)>)
    requires
        pos <= data@.len(),
    ensures
        r matches Some(q) ==> {
            &&& pos <= q.1 <= data@.len()
            &&& frac_list_parse::<A>(data@.skip(pos as int)) == Some(
                (frac_models(q.0@), data@.skip(q.1 as int)),
            )
            &&& frac_list_wf::<A>(frac_models(q.0@))
        },
        r is None ==> frac_list_parse::<A>(data@.skip(pos as int)) is None,
{
    let ghost p = frac_parser::<A>();
    let ghost whole = data@.skip(pos as int);
    let count = match dec_u64(data, pos) {
        Some(pair) => pair,
        None => {
            return None;
        },
    };
    let n = count.0;
    let mut cur = count.1;
    let ghost base = data@.skip(cur as int);
    let mut out: Vec<A> = Vec::new();
    let mut i: u64 = 0;
    proof {
        let r0 = parse_list(base, n as nat, p);
        match r0 {
            Some(q) => {
                assert(frac_models(out@) + q.0 =~= q.0);
            },
            None => {},
        }
    }
    while i < n
        invariant
            i <= n,
            pos <= cur <= data@.len(),
            out@.len() == i,
            p == frac_parser::<A>(),
            whole == data@.skip(pos as int),
            parse_counted(whole, p) == parse_list(base, n as nat, p),
            forall|k: int| 0 <= k < i ==> A::frac_wf(#[trigger] frac_models(out@)[k]),
            (match parse_list(data@.skip(cur as int), (n - i) as nat, p) {
                Some(q) => parse_list(base, n as nat, p) == Some((frac_models(out@) + q.0, q.1)),
                None => parse_list(base, n as nat, p) is None,
            }),
        decreases n - i,
    {
        let ghost rem = data@.skip(cur as int);
        let ghost out_before = frac_models(out@);
        let item = match A::dec_frac(data, cur) {
            Some(pair) => pair,
            None => {
                proof {
                    assert(frac_parser::<A>()(rem) == A::frac_parse(rem));
                    assert(p(rem) is None);
                    assert(parse_list(rem, (n - i) as nat, p) is None);
                }
                return None;
            },
        };
        let ghost item_model = item.0@;
        out.push(item.0);
        cur = item.1;
        proof {
            assert(frac_parser::<A>()(rem) == A::frac_parse(rem));
            assert(p(rem) == Some((item_model, data@.skip(cur as int))));
            assert(frac_models(out@) =~= out_before.push(item_model));
            let r1 = parse_list(data@.skip(cur as int), (n - i - 1) as nat, p);
            match r1 {
                Some(q) => {
                    assert(parse_list(rem, (n - i) as nat, p) == Some(
                        (seq![item_model] + q.0, q.1),
                    ));
                    assert(out_before + (seq![item_model] + q.0) =~= frac_models(out@) + q.0);
                },
                None => {
                    assert(parse_list(rem, (n - i) as nat, p) is None);
                },
            }
        }
        i = i + 1;
    }
    proof {
        assert(parse_list(data@.skip(cur as int), 0, p) == Some(
            (Seq::<<A as View>::V>::empty(), data@.skip(cur as int)),
        ));
        assert(frac_models(out@) + Seq::<<A as View>::V>::empty() =~= frac_models(out@));
    }
    Some((out, cur))
}

} // verus!
