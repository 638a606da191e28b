use vstd::prelude::*;
use crate::pool::RedisPool;
use crate::store::MemStore;
use crate::StoreError;

verus! {

/// Terminal outcome of the authorization gate for one request.
#[derive(Clone, Copy, Debug, PartialEq, Eq, Structural)]
pub enum GateDecision {
    Verified,
    Rejected,
}

/// Maps a lookup outcome to the verdict for the request.
pub open spec fn decision_model(lookup: Option<Result<bool, StoreError>>) -> GateDecision {
    match lookup {
        Some(Ok(true)) => GateDecision::Verified,
        _ => GateDecision::Rejected,
    }
}

/// A token is verified exactly when it was presented, its lookup
/// succeeded, and a record was found; a missing token, a failed lookup,
/// and an unfound record are all rejected alike.
pub proof fn lemma_gate_decision(lookup: Option<Result<bool, StoreError>>)
    ensures
        decision_model(lookup) == GateDecision::Verified <==> lookup == Some(
            Ok::<bool, StoreError>(true),
        ),
{
}

/// Decides pass or fail from the lookup outcome alone.
pub fn decide(lookup: Option<&Result<bool, StoreError>>) -> (r: GateDecision)
    ensures
        r == decision_model(match lookup {
            Some(l) => Some(*l),
            None => None,
        }),
{
    match lookup {
        Some(Ok(true)) => GateDecision::Verified,
        _ => GateDecision::Rejected,
    }
}

/// Whether a request presenting the session token `cookie` may proceed:
/// only with a token that is a live key in the store. A request with no
/// token never passes.
pub fn admin_verification_cookie(cookie: Option<&String>, redis_pool: &RedisPool) -> (r: bool)
    ensures
        cookie is None ==> r == false,
{
    match cookie {
        None => false,
        Some(c) => {
            let lookup = redis_pool.exists_key(c.as_str());
            let d = decide(Some(&lookup));
            match d {
                GateDecision::Verified => true,
                GateDecision::Rejected => false,
            }
        },
    }
}

/// The same decision taken against a `MemStore`, where the lookup's
/// answer is known exactly and the whole outcome is provable.
pub fn gate_decision_in(store: &MemStore, cookie: Option<&String>) -> (r: GateDecision)
    requires
        store.wf(),
    ensures
        r == match cookie {
            None => GateDecision::Rejected,
            Some(c) => if store.contents().contains_key(c@) {
                GateDecision::Verified
            } else {
                GateDecision::Rejected
            },
        },
{
    match cookie {
        None => GateDecision::Rejected,
        Some(c) => {
            let found: Result<bool, StoreError> = Ok(store.exists_key(c.as_str()));
            decide(Some(&found))
        },
    }
}

/// What a refused request receives: an enum the caller can match on,
/// kept apart from store and domain failures.
#[derive(Clone, Copy, Debug, PartialEq, Eq, Structural)]
pub enum AuthDenial {
    VerificationError,
}

impl AuthDenial {
    /// Text of the denial, for hosts that serialize it.
    pub fn message(&self) -> (r: &'static str)
        ensures
            r@ == "Verification error"@,
    {
        "Verification error"
    }
}

/// Admin pre-handler module: its gate runs once per request, before any
/// protected handler.
pub struct Admin;

impl Admin {
    /// Gate check for one request: `Ok` lets the protected handler run,
    /// `Err` carries the structured denial and the handler must not run.
    /// A failed store lookup comes back as the same denial, never as a
    /// store or connection failure: the result type has no room for one.
    pub fn before(cookie: Option<&String>, redis_pool: &RedisPool) -> (r: Result<(), AuthDenial>)
        ensures
            cookie is None ==> r == Err::<(), AuthDenial>(AuthDenial::VerificationError),
    {
        if admin_verification_cookie(cookie, redis_pool) {
            Ok(())
        } else {
            Err(AuthDenial::VerificationError)
        }
    }

    /// The same gate check taken against a `MemStore`, where the whole
    /// outcome is provable: `Ok` exactly when a token was presented and a
    /// record is live under it; a missing token, an unfound token — and,
    /// through `decide`, a failed lookup — all yield the denial.
    pub fn before_in(store: &MemStore, cookie: Option<&String>) -> (r: Result<(), AuthDenial>)
        requires
            store.wf(),
        ensures
            r == match cookie {
                None => Err::<(), AuthDenial>(AuthDenial::VerificationError),
                Some(c) => if store.contents().contains_key(c@) {
                    Ok::<(), AuthDenial>(())
                } else {
                    Err::<(), AuthDenial>(AuthDenial::VerificationError)
                },
            },
    {
        match gate_decision_in(store, cookie) {
            GateDecision::Verified => Ok(()),
            GateDecision::Rejected => Err(AuthDenial::VerificationError),
        }
    }
}

} // verus!
