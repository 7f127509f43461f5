//! Tokens, and the record of those given out.
//!
//! The subordinate mints a token for every function and data object registered
//! with it. Zero is reserved: it names nothing, and an answer that carries it is
//! no registration. Every other token is taken as it comes. That no token names
//! two things within one sandbox is what the subordinate owes; the record of the
//! tokens given out is kept so that this can be said.

use crate::error::SandboxError;
use vstd::prelude::*;
use vstd::std_specs::convert::FromSpecImpl;

verus! {

/// Names a function registered in the sandbox.
#[derive(Clone, Copy, Debug, PartialEq, Eq, Structural)]
pub struct FunctionToken {
    pub value: u64,
}

/// Names a data object registered in the sandbox.
#[derive(Clone, Copy, Debug, PartialEq, Eq, Structural)]
pub struct DataToken {
    pub value: u64,
}

impl From<u64> for FunctionToken {
    fn from(value: u64) -> (token: Self) {
        FunctionToken { value }
    }
}

impl FromSpecImpl<u64> for FunctionToken {
    open spec fn obeys_from_spec() -> bool {
        true
    }

    open spec fn from_spec(value: u64) -> Self {
        FunctionToken { value }
    }
}

impl From<u64> for DataToken {
    fn from(value: u64) -> (token: Self) {
        DataToken { value }
    }
}

impl FromSpecImpl<u64> for DataToken {
    open spec fn obeys_from_spec() -> bool {
        true
    }

    open spec fn from_spec(value: u64) -> Self {
        DataToken { value }
    }
}

/// Whether each token in `outcomes`, in turn, differs from those in `record`
/// and from those that `outcomes` gave before it.
pub open spec fn each_new(record: Seq<u64>, outcomes: Seq<Result<u64, SandboxError>>) -> bool
    decreases outcomes.len(),
{
    if outcomes.len() == 0 {
        true
    } else {
        match outcomes.first() {
            Ok(token) => !record.contains(token) && each_new(
                record.push(token),
                outcomes.drop_first(),
            ),
            Err(_) => each_new(record, outcomes.drop_first()),
        }
    }
}

/// Where each token given differs from those on record when it is given, no
/// token is given twice, and none that was on record at the start.
pub proof fn lemma_new_tokens_never_repeat(
    record: Seq<u64>,
    outcomes: Seq<Result<u64, SandboxError>>,
)
    requires
        each_new(record, outcomes),
    ensures
        forall|i: int|
            0 <= i < outcomes.len() ==> (#[trigger] outcomes[i] matches Ok(token)
                ==> !record.contains(token)),
        forall|i: int, j: int|
            0 <= i < j < outcomes.len() ==> (#[trigger] outcomes[i] matches Ok(a) ==> (
            #[trigger] outcomes[j] matches Ok(b) ==> a != b)),
    decreases outcomes.len(),
{
    if outcomes.len() > 0 {
        let rest = outcomes.drop_first();
        let later = match outcomes.first() {
            Ok(token) => record.push(token),
            Err(_) => record,
        };
        lemma_new_tokens_never_repeat(later, rest);
        assert forall|t: u64| record.contains(t) implies later.contains(t) by {
            let k = choose|k: int| 0 <= k < record.len() && record[k] == t;
            assert(later[k] == t);
        }
        assert forall|i: int| 0 <= i < outcomes.len() implies (#[trigger] outcomes[i] matches Ok(
            token,
        ) ==> !record.contains(token)) by {
            if i > 0 {
                assert(outcomes[i] == rest[i - 1]);
            }
        }
        assert forall|i: int, j: int| 0 <= i < j < outcomes.len() implies (
        #[trigger] outcomes[i] matches Ok(a) ==> (#[trigger] outcomes[j] matches Ok(b) ==> a
            != b)) by {
            assert(outcomes[j] == rest[j - 1]);
            if i > 0 {
                assert(outcomes[i] == rest[i - 1]);
            } else {
                if let Ok(a) = outcomes.first() {
                    assert(later[record.len() as int] == a);
                }
            }
        }
    }
}

} // verus!
