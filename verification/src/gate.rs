//! The access gate: the per-request middleware that decides allow or deny
//! before any handler runs.
//!
//! Pre-flight probes and the login endpoint pass unconditionally. Every
//! other request must carry a bearer credential that verifies under the
//! process secret. The access gate has no side effects: the decision is the whole
//! outcome.

use vstd::prelude::*;
use vstd::slice::slice_subrange;
use crate::bytes_eq;
use crate::token::token_accepted;
use crate::token::verify;

verus! {

/// The access gate's decision for one request.
#[derive(PartialEq, Eq, Structural, Clone, Copy, Debug)]
pub enum GateDecision {
    /// Pass the request on to its handler.
    Allow,
    /// The request carries no bearer credential: an authorization-required
    /// failure, fatal to the request.
    MissingAuthorization,
    /// The bearer credential failed verification: an access-denied failure.
    AccessDenied,
}

/// The pre-flight probe method, `OPTIONS` in ASCII.
pub open spec fn options_method() -> Seq<u8> {
    seq![79u8, 80u8, 84u8, 73u8, 79u8, 78u8, 83u8]
}

/// The login endpoint's target, `/login` in ASCII.
pub open spec fn login_target() -> Seq<u8> {
    seq![47u8, 108u8, 111u8, 103u8, 105u8, 110u8]
}

/// The bearer scheme prefix of an Authorization header, `Bearer ` in ASCII.
pub open spec fn bearer_prefix() -> Seq<u8> {
    seq![66u8, 101u8, 97u8, 114u8, 101u8, 114u8, 32u8]
}

/// Whether an Authorization header value carries a bearer credential.
pub open spec fn has_bearer_prefix(h: Seq<u8>) -> bool {
    h.len() >= 7 && h.take(7) == bearer_prefix()
}

/// The view of an optional header value.
pub open spec fn header_view(h: Option<&[u8]>) -> Option<Seq<u8>> {
    match h {
        Option::Some(v) => Option::Some(v@),
        Option::None => Option::None,
    }
}

/// The access gate's decision table. In order: a pre-flight probe passes; the
/// login endpoint passes regardless of credential; a request without a
/// bearer credential is an authorization-required failure; a bearer
/// credential that fails verification is an access-denied failure; a
/// verifying credential passes.
pub open spec fn gate_decision_of(
    method: Seq<u8>,
    target: Seq<u8>,
    authorization: Option<Seq<u8>>,
    secret: Seq<u8>,
) -> GateDecision {
    if method == options_method() {
        GateDecision::Allow
    } else if target == login_target() {
        GateDecision::Allow
    } else {
        match authorization {
            Option::None => GateDecision::MissingAuthorization,
            Option::Some(h) => {
                if !has_bearer_prefix(h) {
                    GateDecision::MissingAuthorization
                } else if token_accepted(h.skip(7), secret) {
                    GateDecision::Allow
                } else {
                    GateDecision::AccessDenied
                }
            },
        }
    }
}

fn options_method_bytes() -> (v: Vec<u8>)
    ensures
        v@ == options_method(),
{
    let mut v: Vec<u8> = Vec::new();
    v.push(79);
    v.push(80);
    v.push(84);
    v.push(73);
    v.push(79);
    v.push(78);
    v.push(83);
    proof {
        assert(v@ =~= options_method());
    }
    v
}

fn login_target_bytes() -> (v: Vec<u8>)
    ensures
        v@ == login_target(),
{
    let mut v: Vec<u8> = Vec::new();
    v.push(47);
    v.push(108);
    v.push(111);
    v.push(103);
    v.push(105);
    v.push(110);
    proof {
        assert(v@ =~= login_target());
    }
    v
}

fn bearer_prefix_bytes() -> (v: Vec<u8>)
    ensures
        v@ == bearer_prefix(),
{
    let mut v: Vec<u8> = Vec::new();
    v.push(66);
    v.push(101);
    v.push(97);
    v.push(114);
    v.push(101);
    v.push(114);
    v.push(32);
    proof {
        assert(v@ =~= bearer_prefix());
    }
    v
}

/// Decides one request: the method, the target, the Authorization header if
/// any, and the process secret, against the access gate's decision table.
pub fn authenticator(
    method: &[u8],
    target: &[u8],
    authorization: Option<&[u8]>,
    secret: &[u8],
) -> (d: GateDecision)
    ensures
        d == gate_decision_of(method@, target@, header_view(authorization), secret@),
{
    let om = options_method_bytes();
    if bytes_eq(method, om.as_slice()) {
        return GateDecision::Allow;
    }
    let lt = login_target_bytes();
    if bytes_eq(target, lt.as_slice()) {
        return GateDecision::Allow;
    }
    match authorization {
        Option::None => GateDecision::MissingAuthorization,
        Option::Some(h) => {
            if h.len() < 7 {
                return GateDecision::MissingAuthorization;
            }
            let prefix = slice_subrange(h, 0, 7);
            let bp = bearer_prefix_bytes();
            proof {
                assert(h@.subrange(0, 7) =~= h@.take(7));
            }
            if !bytes_eq(prefix, bp.as_slice()) {
                return GateDecision::MissingAuthorization;
            }
            let tok = slice_subrange(h, 7, h.len());
            proof {
                assert(h@.subrange(7, h@.len() as int) =~= h@.skip(7));
            }
            if verify(tok, secret) {
                GateDecision::Allow
            } else {
                GateDecision::AccessDenied
            }
        },
    }
}

/// A pre-flight probe, or any request for the login endpoint, passes the
/// gate without a token check: the decision is Allow whatever credential
/// and secret are at hand.
pub proof fn lemma_gate_bypass(
    method: Seq<u8>,
    target: Seq<u8>,
    authorization: Option<Seq<u8>>,
    secret: Seq<u8>,
)
    requires
        method == options_method() || target == login_target(),
    ensures
        gate_decision_of(method, target, authorization, secret) == GateDecision::Allow,
{
}

/// On every other route, a request without an Authorization header is
/// denied before any handler runs, whatever the secret.
pub proof fn lemma_gate_requires_credential(method: Seq<u8>, target: Seq<u8>, secret: Seq<u8>)
    requires
        method != options_method(),
        target != login_target(),
    ensures
        gate_decision_of(method, target, Option::None, secret)
            == GateDecision::MissingAuthorization,
{
}

} // verus!
