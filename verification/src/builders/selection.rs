//! Which builder builds a canister.

use crate::error::{DfxError, DfxErrorView, ErrorCause, ErrorCauseView};
use vstd::prelude::*;
use vstd::string::StringExecFns;

verus! {

/// How many of `supports[..upto]` are true.
pub open spec fn count_true(supports: Seq<bool>, upto: int) -> nat
    decreases upto,
{
    if upto <= 0 || upto > supports.len() {
        0
    } else if supports[upto - 1] {
        count_true(supports, upto - 1) + 1
    } else {
        count_true(supports, upto - 1)
    }
}

/// The failure for a canister that no builder supports.
pub open spec fn no_builder_error(canister_name: Seq<char>) -> DfxErrorView {
    DfxErrorView::new(
        ErrorCauseView::ConfigError("Cannot find builder for canister '"@ + canister_name + "'."@),
    )
}

/// The failure for a canister that more than one builder supports.
pub open spec fn several_builders_error(canister_name: Seq<char>) -> DfxErrorView {
    DfxErrorView::new(
        ErrorCauseView::ConfigError(
            "More than one builder supports canister '"@ + canister_name + "'."@,
        ),
    )
}

/// Picks the builder of a canister. `supports` says of each builder, in the
/// order in which the builders are tried, whether it supports the type of the
/// canister. Exactly one builder has to: that none does and that several do
/// are both failures of the configuration.
pub fn select_builder(canister_name: &str, supports: &Vec<bool>) -> (r: Result<usize, DfxError>)
    ensures
        match r {
            Ok(chosen) => {
                &&& chosen < supports.len()
                &&& supports[chosen as int]
                &&& forall|i: int| 0 <= i < supports.len() && i != chosen ==> !supports[i]
            },
            Err(e) => if count_true(supports@, supports.len() as int) == 0 {
                e@ == no_builder_error(canister_name@)
            } else {
                count_true(supports@, supports.len() as int) >= 2 && e@ == several_builders_error(
                    canister_name@,
                )
            },
        },
        r is Ok <==> count_true(supports@, supports.len() as int) == 1,
{
    let mut chosen: Option<usize> = None;
    let mut i: usize = 0;
    while i < supports.len()
        invariant
            0 <= i <= supports.len(),
            match chosen {
                None => count_true(supports@, i as int) == 0 && forall|j: int|
                    0 <= j < i ==> !supports[j],
                Some(at) => {
                    &&& count_true(supports@, i as int) == 1
                    &&& at < i
                    &&& supports[at as int]
                    &&& forall|j: int| 0 <= j < i && j != at ==> !supports[j]
                },
            },
        decreases supports.len() - i,
    {
        if supports[i] {
            match chosen {
                None => {
                    chosen = Some(i);
                },
                Some(_) => {
                    proof {
                        lemma_count_true_grows(supports@, i as int + 1, supports.len() as int);
                    }
                    let mut message = String::from_str("More than one builder supports canister '");
                    message.append(canister_name);
                    message.append("'.");
                    return Err(DfxError::new(ErrorCause::ConfigError(message)));
                },
            }
        }
        i += 1;
    }
    match chosen {
        Some(at) => Ok(at),
        None => {
            let mut message = String::from_str("Cannot find builder for canister '");
            message.append(canister_name);
            message.append("'.");
            Err(DfxError::new(ErrorCause::ConfigError(message)))
        },
    }
}

/// Counting further never counts less.
proof fn lemma_count_true_grows(supports: Seq<bool>, from: int, upto: int)
    requires
        0 <= from <= upto <= supports.len(),
    ensures
        count_true(supports, from) <= count_true(supports, upto),
    decreases upto - from,
{
    if from < upto {
        lemma_count_true_grows(supports, from, upto - 1);
    }
}

} // verus!
