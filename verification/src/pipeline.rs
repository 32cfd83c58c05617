//! The request pipeline: extract the submitted numbers, reduce them to their
//! greatest common divisor, and present the outcome. One pass per request,
//! short-circuiting to a failure outcome at the first error.

use vstd::prelude::*;

verus! {

use crate::extract::ExtractionError;
use crate::extract::FormSubmission;
use crate::extract::all_values_numeric;
use crate::gcd::all_positive;
use crate::gcd::compute_gcd;
use crate::gcd::seq_gcd;
use crate::numbers::digits_value;
use crate::numbers::is_u64_numeral;
use crate::present::ComputationOutcome;
use crate::present::FailureReason;
use crate::present::HttpResponse;
use crate::present::present;
use crate::present::spec_failure_message;
use crate::present::spec_missing_field_message;
use crate::present::spec_not_a_number_message;
use crate::present::spec_success_body;
use crate::present::spec_zero_operand_message;
use crate::present::failure_outcome;

/// The index of the first submitted value that is not a decimal numeral
/// (the length of the sequence when all of them are).
pub open spec fn first_invalid(vals: Seq<Seq<char>>) -> int
    decreases vals.len(),
{
    if vals.len() == 0 {
        0
    } else if !is_u64_numeral(vals.first()) {
        0
    } else {
        1 + first_invalid(vals.drop_first())
    }
}

proof fn lemma_first_invalid_at(vals: Seq<Seq<char>>, i: int)
    requires
        0 <= i < vals.len(),
        !is_u64_numeral(vals[i]),
        forall|k: int| 0 <= k < i ==> is_u64_numeral(#[trigger] vals[k]),
    ensures
        first_invalid(vals) == i,
    decreases i,
{
    assert(vals.first() == vals[0]);
    if i > 0 {
        let t = vals.drop_first();
        assert(t[i - 1] == vals[i]);
        assert forall|k: int| 0 <= k < i - 1 implies is_u64_numeral(#[trigger] t[k]) by {
            assert(is_u64_numeral(vals[k + 1]));
        }
        lemma_first_invalid_at(t, i - 1);
    }
}

/// Every submitted value denotes a strictly positive integer.
pub open spec fn all_values_positive(vals: Seq<Seq<char>>) -> bool {
    forall|i: int| 0 <= i < vals.len() ==> digits_value(#[trigger] vals[i]) >= 1
}

/// The integers denoted by the submitted values, in submission order.
pub open spec fn spec_parsed_numbers(vals: Seq<Seq<char>>) -> Seq<u64> {
    Seq::new(vals.len(), |i: int| digits_value(vals[i]) as u64)
}

/// Turns one form submission into a computation outcome, short-circuiting to
/// a failure at the first error: a missing or empty field, a value that is
/// not a decimal numeral (the first such value is reported), or a zero value.
pub fn process_submission(submission: &FormSubmission, field_name: &str) -> (o:
    ComputationOutcome)
    ensures
        o.wf(),
        submission.values_of(field_name@) is None ==> (o matches ComputationOutcome::Failure {
            reason: FailureReason::MissingField(f),
            ..
        } && f@ == field_name@),
        submission.values_of(field_name@) matches Some(vals) ==> (vals.len() == 0 ==> (o matches
        ComputationOutcome::Failure { reason: FailureReason::NoValuesProvided(f), .. } && f@
            == field_name@)),
        submission.values_of(field_name@) matches Some(vals) ==> ((vals.len() >= 1
            && !all_values_numeric(vals)) ==> (o matches ComputationOutcome::Failure {
            reason: FailureReason::NotANumber(f, t),
            ..
        } && f@ == field_name@ && t@ == vals[first_invalid(vals)])),
        submission.values_of(field_name@) matches Some(vals) ==> ((vals.len() >= 1
            && all_values_numeric(vals) && !all_values_positive(vals)) ==> o matches
            ComputationOutcome::Failure { reason: FailureReason::ZeroOperand, .. }),
        submission.values_of(field_name@) matches Some(vals) ==> ((vals.len() >= 1
            && all_values_numeric(vals) && all_values_positive(vals)) ==> (o matches
            ComputationOutcome::Success { numbers, divisor } && numbers@ == spec_parsed_numbers(
            vals,
        ) && divisor as nat == seq_gcd(numbers@))),
{
    let numbers = match submission.extract_numbers(field_name) {
        Err(error) => {
            let reason = match error {
                ExtractionError::MissingField(field) => FailureReason::MissingField(field),
                ExtractionError::NoValuesProvided => FailureReason::NoValuesProvided(
                    field_name.to_owned(),
                ),
                ExtractionError::NotANumber(text) => {
                    proof {
                        let vals = submission.values_of(field_name@)->Some_0;
                        let j = choose|j: int|
                            0 <= j < vals.len() && !is_u64_numeral(#[trigger] vals[j]) && text@
                                == vals[j] && (forall|k: int|
                                0 <= k < j ==> is_u64_numeral(#[trigger] vals[k]));
                        lemma_first_invalid_at(vals, j);
                    }
                    FailureReason::NotANumber(field_name.to_owned(), text)
                },
            };
            return failure_outcome(reason);
        },
        Ok(numbers) => numbers,
    };
    proof {
        let vals = submission.values_of(field_name@)->Some_0;
        assert(numbers@ =~= spec_parsed_numbers(vals));
    }
    match compute_gcd(&numbers) {
        Err(_) => {
            proof {
                let vals = submission.values_of(field_name@)->Some_0;
                if all_values_positive(vals) {
                    assert forall|i: int| 0 <= i < numbers@.len() implies #[trigger] numbers@[i]
                        >= 1 by {
                        assert(digits_value(vals[i]) >= 1);
                    }
                }
            }
            failure_outcome(FailureReason::ZeroOperand)
        },
        Ok(divisor) => {
            proof {
                let vals = submission.values_of(field_name@)->Some_0;
                if !all_values_positive(vals) {
                    let i = choose|i: int|
                        0 <= i < vals.len() && !(digits_value(#[trigger] vals[i]) >= 1);
                    assert(numbers@[i] < 1);
                    assert(!all_positive(numbers@));
                }
            }
            ComputationOutcome::Success { numbers, divisor }
        },
    }
}

/// The status code and body owed to one submission: the whole pipeline as a
/// function of the submission's contents and the field name.
pub open spec fn spec_response(submission: FormSubmission, field_name: Seq<char>) -> (int, Seq<
    char,
>) {
    match submission.values_of(field_name) {
        None => (400, spec_missing_field_message(field_name) + "\n"@),
        Some(vals) => if vals.len() == 0 {
            (400, spec_missing_field_message(field_name) + "\n"@)
        } else if !all_values_numeric(vals) {
            (400, spec_not_a_number_message(field_name, vals[first_invalid(vals)]) + "\n"@)
        } else if !all_values_positive(vals) {
            (400, spec_zero_operand_message() + "\n"@)
        } else {
            (
                200,
                spec_success_body(
                    spec_parsed_numbers(vals),
                    seq_gcd(spec_parsed_numbers(vals)) as u64,
                ),
            )
        },
    }
}

/// Handles one submission end to end: extraction, reduction, presentation.
/// The response is a function of the submission and field name alone.
pub fn handle_submission(submission: &FormSubmission, field_name: &str) -> (r: HttpResponse)
    ensures
        r.status as int == spec_response(*submission, field_name@).0,
        r.body@ == spec_response(*submission, field_name@).1,
{
    let outcome = process_submission(submission, field_name);
    let response = present(&outcome);
    proof {
        let vo = submission.values_of(field_name@);
        if vo is Some {
            let vals = vo->Some_0;
            if vals.len() >= 1 && all_values_numeric(vals) && all_values_positive(vals) {
                assert(outcome matches ComputationOutcome::Success { numbers, divisor } && divisor
                    as nat == seq_gcd(spec_parsed_numbers(vals)));
            }
        }
    }
    response
}

/// Handling is idempotent: two responses that each satisfy the pipeline's
/// contract for the same submission and field name are byte-identical.
pub proof fn lemma_pipeline_idempotent(
    submission: FormSubmission,
    field_name: Seq<char>,
    r1: HttpResponse,
    r2: HttpResponse,
)
    requires
        r1.status as int == spec_response(submission, field_name).0,
        r1.body@ == spec_response(submission, field_name).1,
        r2.status as int == spec_response(submission, field_name).0,
        r2.body@ == spec_response(submission, field_name).1,
    ensures
        r1.status == r2.status,
        r1.body@ == r2.body@,
{
}

} // verus!
