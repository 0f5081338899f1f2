//! Validation of the domain IR: structure (every aggregate has state fields
//! and named events) and purity (commands call nothing with side effects).

pub mod purity;
pub mod structure;

use vstd::prelude::*;

use crate::diagnostic::CompilerError;
use crate::ir::DomainIR;
use crate::validate::purity::{spec_aggregate_violation, validate_aggregate_purity};
use crate::validate::structure::{spec_structure_error, validate_structure};

verus! {

/// What validating a domain gives: the error of the first aggregate with a
/// structural problem, else that of the first impure aggregate, else success.
pub open spec fn is_validation_result(domain: DomainIR, r: Result<(), CompilerError>) -> bool {
    match spec_structure_error(domain.aggregates@) {
        Some(k) => r is Err && crate::validate::structure::structure_error_matches(domain.aggregates@[k], r->Err_0),
        None => match first_impure(domain.aggregates@, 0) {
            Some(k) => r is Err && crate::validate::purity::is_violation_error(domain.aggregates@[k], r->Err_0),
            None => r is Ok,
        },
    }
}

/// Validates the whole domain: the structure of every aggregate first, then
/// the purity of each aggregate in turn; the first problem found is the error.
pub fn validate_domain(domain: &DomainIR) -> (r: Result<(), CompilerError>)
    ensures
        is_validation_result(*domain, r),
{
    match validate_structure(domain) {
        Err(e) => return Err(e),
        Ok(()) => {},
    }
    let mut i: usize = 0;
    while i < domain.aggregates.len()
        invariant
            i <= domain.aggregates@.len(),
            spec_structure_error(domain.aggregates@) is None,
            forall|k: int| 0 <= k < i ==> spec_aggregate_violation(#[trigger] domain.aggregates@[k]) is None,
        decreases domain.aggregates.len() - i,
    {
        match validate_aggregate_purity(&domain.aggregates[i]) {
            Err(e) => {
                proof {
                    lemma_first_impure(domain.aggregates@, 0, i as int);
                }
                return Err(e);
            },
            Ok(()) => {},
        }
        i = i + 1;
    }
    proof {
        lemma_first_impure(domain.aggregates@, 0, domain.aggregates@.len() as int);
    }
    Ok(())
}

/// The index of the first aggregate at or after `i` with a purity violation.
pub open spec fn first_impure(aggs: Seq<crate::ir::aggregate::AggregateIR>, i: int) -> Option<int>
    decreases aggs.len() - i,
{
    if i < 0 || i >= aggs.len() {
        None
    } else if spec_aggregate_violation(aggs[i]) is Some {
        Some(i)
    } else {
        first_impure(aggs, i + 1)
    }
}

proof fn lemma_first_impure(aggs: Seq<crate::ir::aggregate::AggregateIR>, i: int, j: int)
    requires
        0 <= i <= j <= aggs.len(),
        forall|m: int| i <= m < j ==> spec_aggregate_violation(#[trigger] aggs[m]) is None,
        j == aggs.len() || spec_aggregate_violation(aggs[j]) is Some,
    ensures
        first_impure(aggs, i) == if j == aggs.len() { None } else { Some(j) },
    decreases j - i,
{
    if i < j {
        lemma_first_impure(aggs, i + 1, j);
    }
}

} // verus!
