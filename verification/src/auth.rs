//! The auth flow: a watched boolean that tells whether the remote side
//! is authorized.

use vstd::prelude::*;

use crate::codec::dec_bool;
use crate::codec::enc_bool;
use crate::codec::enc_bool_spec;
use crate::codec::lemma_bool_round;
use crate::codec::parse_bool;
use crate::flow::DataFraction;
use crate::flow::Flow;
use crate::flow::TimedEvent;
use crate::provider::StreamType;

verus! {

/// The state of an auth stream.
#[derive(Debug, Clone, Copy, PartialEq, Eq, Structural)]
pub struct AuthState {
    pub authorized: bool,
}

impl AuthState {
    /// A fresh auth state: not authorized.
    pub fn new() -> (r: AuthState)
        ensures
            r == (AuthState { authorized: false }),
    {
        AuthState { authorized: false }
    }
}

impl View for AuthState {
    type V = AuthState;

    open spec fn view(&self) -> AuthState {
        *self
    }
}

impl DataFraction for AuthState {
    open spec fn frac_wf(m: AuthState) -> bool {
        true
    }

    fn clone_frac(&self) -> (r: Self) {
        *self
    }

    open spec fn frac_enc(m: AuthState) -> Seq<u8> {
        enc_bool_spec(m.authorized)
    }

    open spec fn frac_parse(b: Seq<u8>) -> Option<(AuthState, Seq<u8>)> {
        match parse_bool(b) {
            Some((v, rest)) => Some((AuthState { authorized: v }, rest)),
            None => None,
        }
    }

    proof fn frac_round(m: AuthState, rest: Seq<u8>) {
        lemma_bool_round(m.authorized, rest);
    }

    fn enc_frac(&self, buf: &mut Vec<u8>) {
        enc_bool(buf, self.authorized);
    }

    fn dec_frac(data: &Vec<u8>, pos: usize) -> (r: Option<(AuthState, usize)>) {
        match dec_bool(data, pos) {
            Some((v, end)) => Some((AuthState { authorized: v }, end)),
            None => None,
        }
    }
}

/// The mutation of an auth stream.
#[derive(Debug, Clone, Copy, PartialEq, Eq, Structural)]
pub enum AuthEvent {
    Authorized(bool),
}

impl View for AuthEvent {
    type V = AuthEvent;

    open spec fn view(&self) -> AuthEvent {
        *self
    }
}

impl DataFraction for AuthEvent {
    open spec fn frac_wf(m: AuthEvent) -> bool {
        true
    }

    fn clone_frac(&self) -> (r: Self) {
        *self
    }

    open spec fn frac_enc(m: AuthEvent) -> Seq<u8> {
        match m {
            AuthEvent::Authorized(v) => enc_bool_spec(v),
        }
    }

    open spec fn frac_parse(b: Seq<u8>) -> Option<(AuthEvent, Seq<u8>)> {
        match parse_bool(b) {
            Some((v, rest)) => Some((AuthEvent::Authorized(v), rest)),
            None => None,
        }
    }

    proof fn frac_round(m: AuthEvent, rest: Seq<u8>) {
        match m {
            AuthEvent::Authorized(v) => {
                lemma_bool_round(v, rest);
            },
        }
    }

    fn enc_frac(&self, buf: &mut Vec<u8>) {
        match self {
            AuthEvent::Authorized(v) => {
                enc_bool(buf, *v);
            },
        }
    }

    fn dec_frac(data: &Vec<u8>, pos: usize) -> (r: Option<(AuthEvent, usize)>) {
        match dec_bool(data, pos) {
            Some((v, end)) => Some((AuthEvent::Authorized(v), end)),
            None => None,
        }
    }
}

impl Flow for AuthState {
    type Action = AuthEvent;

    type Event = AuthEvent;

    open spec fn stream_type_spec() -> Seq<char> {
        "rillrate.auth.v0"@
    }

    open spec fn apply_spec(m: AuthState, ts: i64, ev: AuthEvent) -> AuthState {
        match ev {
            AuthEvent::Authorized(v) => (AuthState { authorized: v }),
        }
    }

    proof fn apply_preserves_wf(m: AuthState, ts: i64, ev: AuthEvent) {
    }

    fn stream_type() -> (r: StreamType) {
        StreamType::of_str("rillrate.auth.v0")
    }

    fn apply(&mut self, event: TimedEvent<AuthEvent>) {
        match event.event {
            AuthEvent::Authorized(v) => {
                self.authorized = v;
            },
        }
    }

    open spec fn action_event_spec(a: AuthEvent) -> Option<AuthEvent> {
        Some(a)
    }

    fn action_event(action: AuthEvent) -> (r: Option<AuthEvent>) {
        Some(action)
    }
}

} // verus!
