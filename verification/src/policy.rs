//! The uniform translate-or-retry policy for syscall return codes.
//!
//! Every syscall return is either a non-negative success value or a
//! negative negated errno. The policy, shared by every blocking operation
//! of the layer:
//!
//! - `EINTR`: the call was interrupted before doing anything observable —
//!   retry the same call; the interruption is never surfaced.
//! - For connect only, `EISCONN` (already connected) is remapped to
//!   success: the connection attempt had already completed during an
//!   earlier interrupted retry.
//! - Any other negative code is surfaced as a typed error carrying the raw
//!   negative return value, never retried, never turned into success.
//!
//! The spec functions below describe what a whole retry loop does to a
//! finite script of return codes: how many attempts it makes
//! ([`decision_index`]) and which code it finally acts on ([`decision`]).

use vstd::prelude::*;

use crate::error::Error;
use crate::netstack::{EINTR, EISCONN};

verus! {

/// Is `code` the interrupted-call return (negated `EINTR`)?
pub open spec fn spec_is_eintr(code: i32) -> bool {
    code == -EINTR
}

/// Is `code` the already-connected return (negated `EISCONN`)?
pub open spec fn spec_is_eisconn(code: i32) -> bool {
    code == -EISCONN
}

/// Does the script contain a code a retry loop would act on, rather than
/// retry past?
pub open spec fn has_decision(script: Seq<i32>) -> bool
    decreases script.len(),
{
    if script.len() == 0 {
        false
    } else if spec_is_eintr(script[0]) {
        has_decision(script.skip(1))
    } else {
        true
    }
}

/// The position of the first code that is not a retried interruption: the
/// number of `EINTR` returns a retry loop swallows before acting.
pub open spec fn decision_index(script: Seq<i32>) -> nat
    decreases script.len(),
{
    if script.len() == 0 {
        0
    } else if spec_is_eintr(script[0]) {
        1 + decision_index(script.skip(1))
    } else {
        0
    }
}

/// The return code a retry loop finally acts on.
pub open spec fn decision(script: Seq<i32>) -> i32 {
    script[decision_index(script) as int]
}

/// What a plain retried call (accept, send) returns for a script: the
/// first non-`EINTR` code, translated by sign.
pub open spec fn call_outcome(script: Seq<i32>) -> Result<i32, Error> {
    if decision(script) >= 0 {
        Ok(decision(script))
    } else {
        Err(Error(decision(script)))
    }
}

/// What connect returns for a script: as [`call_outcome`], with `EISCONN`
/// remapped to success.
pub open spec fn connect_outcome(script: Seq<i32>) -> Result<(), Error> {
    if decision(script) >= 0 || spec_is_eisconn(decision(script)) {
        Ok(())
    } else {
        Err(Error(decision(script)))
    }
}

/// Basic bounds: the decision sits inside the script, everything before it
/// is a retried interruption, and the decision itself is not one.
pub proof fn lemma_decision_index(script: Seq<i32>)
    requires
        has_decision(script),
    ensures
        0 <= decision_index(script) < script.len(),
        !spec_is_eintr(decision(script)),
        forall|i: int| 0 <= i < decision_index(script) ==> spec_is_eintr(script[i]),
    decreases script.len(),
{
    if script.len() > 0 && spec_is_eintr(script[0]) {
        lemma_decision_index(script.skip(1));
        assert forall|i: int| 0 <= i < decision_index(script) implies spec_is_eintr(
            script[i],
        ) by {
            if i > 0 {
                assert(script.skip(1)[i - 1] == script[i]);
            }
        }
        assert(script.skip(1)[decision_index(script.skip(1)) as int] == script[decision_index(script) as int]);
    }
}

/// Retried interruptions are invisible: prefixing a script with any finite
/// run of `EINTR` returns leaves the decision — and with it the outcome of
/// every retried call — exactly what it would have been without the run.
pub proof fn lemma_eintr_prefix_transparent(pre: Seq<i32>, rest: Seq<i32>)
    requires
        forall|i: int| 0 <= i < pre.len() ==> spec_is_eintr(pre[i]),
        has_decision(rest),
    ensures
        has_decision(pre + rest),
        decision_index(pre + rest) == pre.len() + decision_index(rest),
        decision(pre + rest) == decision(rest),
        call_outcome(pre + rest) == call_outcome(rest),
        connect_outcome(pre + rest) == connect_outcome(rest),
    decreases pre.len(),
{
    lemma_decision_index(rest);
    if pre.len() == 0 {
        assert(pre + rest =~= rest);
    } else {
        lemma_eintr_prefix_transparent(pre.skip(1), rest);
        assert((pre + rest).skip(1) =~= pre.skip(1) + rest);
        assert((pre + rest)[pre.len() + decision_index(rest) as int] == rest[decision_index(rest) as int]);
    }
}

/// An `EISCONN` reply to connect is observably a successful connect.
pub proof fn lemma_eisconn_is_success(script: Seq<i32>)
    requires
        has_decision(script),
        spec_is_eisconn(decision(script)),
    ensures
        connect_outcome(script) == Ok::<(), Error>(()),
{
}

/// The step a retry loop takes on one return code.
#[derive(Clone, Copy, Debug, PartialEq, Eq, Structural)]
pub enum Flow {
    /// The call was interrupted; make the same call again.
    Retry,
    /// The call is decided; act on this code.
    Act(i32),
}

/// What the policy decides for one return code.
pub open spec fn spec_policy(code: i32) -> Flow {
    if spec_is_eintr(code) {
        Flow::Retry
    } else {
        Flow::Act(code)
    }
}

/// The shared translate-or-retry helper: one step of the policy, applied
/// to one raw return code.
pub fn policy(code: i32) -> (r: Flow)
    ensures
        r == spec_policy(code),
{
    if code == -EINTR {
        Flow::Retry
    } else {
        Flow::Act(code)
    }
}

} // verus!
