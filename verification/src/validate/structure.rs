//! Structure validation: every aggregate has at least one state field, at
//! least one event variant, and no event variant without a name.

use vstd::prelude::*;

use crate::diagnostic::CompilerError;
use crate::ir::aggregate::AggregateIR;
use crate::ir::DomainIR;

verus! {

/// Whether an aggregate is malformed.
pub open spec fn is_malformed(a: AggregateIR) -> bool {
    a.state.fields@.len() == 0 || a.events.variants@.len() == 0 || exists|k: int|
        0 <= k < a.events.variants@.len() && #[trigger] a.events.variants@[k].name@.len() == 0
}

/// The error of a malformed aggregate: no state field, no event variant, or an
/// unnamed variant, checked in that order.
pub open spec fn structure_error_matches(a: AggregateIR, e: CompilerError) -> bool {
    if a.state.fields@.len() == 0 {
        e matches CompilerError::InvalidStateType { type_ident } && type_ident@ == a.name@ + "State"@
    } else if a.events.variants@.len() == 0 {
        e matches CompilerError::InvalidEventType { type_ident } && type_ident@ == a.events.name@
    } else {
        e matches CompilerError::InvalidEventType { type_ident } && type_ident@ == a.events.name@ + " variant"@
    }
}

/// The index of the first malformed aggregate.
pub open spec fn spec_structure_error(aggs: Seq<AggregateIR>) -> Option<int> {
    first_malformed(aggs, 0)
}

pub open spec fn first_malformed(aggs: Seq<AggregateIR>, i: int) -> Option<int>
    decreases aggs.len() - i,
{
    if i < 0 || i >= aggs.len() {
        None
    } else if is_malformed(aggs[i]) {
        Some(i)
    } else {
        first_malformed(aggs, i + 1)
    }
}

proof fn lemma_first_malformed(aggs: Seq<AggregateIR>, i: int, j: int)
    requires
        0 <= i <= j <= aggs.len(),
        forall|m: int| i <= m < j ==> !is_malformed(#[trigger] aggs[m]),
        j == aggs.len() || is_malformed(aggs[j]),
    ensures
        first_malformed(aggs, i) == if j == aggs.len() { None } else { Some(j) },
    decreases j - i,
{
    if i < j {
        lemma_first_malformed(aggs, i + 1, j);
    }
}

/// Validates that an aggregate has state fields and named event variants.
pub fn validate_aggregate_structure(aggregate: &AggregateIR) -> (r: Result<(), CompilerError>)
    ensures
        is_malformed(*aggregate) ==> r is Err && structure_error_matches(*aggregate, r->Err_0),
        !is_malformed(*aggregate) ==> r is Ok,
{
    if aggregate.state.fields.len() == 0 {
        let mut t = aggregate.name.clone();
        t.append("State");
        return Err(CompilerError::InvalidStateType { type_ident: t });
    }
    if aggregate.events.variants.len() == 0 {
        return Err(CompilerError::InvalidEventType { type_ident: aggregate.events.name.clone() });
    }
    let mut i: usize = 0;
    while i < aggregate.events.variants.len()
        invariant
            i <= aggregate.events.variants@.len(),
            aggregate.state.fields@.len() > 0,
            aggregate.events.variants@.len() > 0,
            forall|k: int| 0 <= k < i ==> #[trigger] aggregate.events.variants@[k].name@.len() != 0,
        decreases aggregate.events.variants.len() - i,
    {
        if aggregate.events.variants[i].name.unicode_len() == 0 {
            let mut t = aggregate.events.name.clone();
            t.append(" variant");
            proof {
                assert(aggregate.events.variants@[i as int].name@.len() == 0);
            }
            return Err(CompilerError::InvalidEventType { type_ident: t });
        }
        i = i + 1;
    }
    Ok(())
}

/// Validates the structure of every aggregate; the first malformed one is the error.
pub fn validate_structure(domain: &DomainIR) -> (r: Result<(), CompilerError>)
    ensures
        match spec_structure_error(domain.aggregates@) {
            Some(k) => r is Err && structure_error_matches(domain.aggregates@[k], r->Err_0),
            None => r is Ok,
        },
{
    let mut i: usize = 0;
    while i < domain.aggregates.len()
        invariant
            i <= domain.aggregates@.len(),
            forall|k: int| 0 <= k < i ==> !is_malformed(#[trigger] domain.aggregates@[k]),
        decreases domain.aggregates.len() - i,
    {
        match validate_aggregate_structure(&domain.aggregates[i]) {
            Err(e) => {
                proof {
                    lemma_first_malformed(domain.aggregates@, 0, i as int);
                }
                return Err(e);
            },
            Ok(()) => {},
        }
        i = i + 1;
    }
    proof {
        lemma_first_malformed(domain.aggregates@, 0, domain.aggregates@.len() as int);
    }
    Ok(())
}

} // verus!
