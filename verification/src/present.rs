//! The result presenter: the computation outcome of one request, the exact
//! user-visible message for every failure kind, and the rendering of an
//! outcome as an HTTP status code and body. Also the static input form page.

use vstd::prelude::*;

verus! {

use vstd::string::StringExecFns;
use crate::numbers::spec_number_list;
use crate::numbers::spec_u64_string;
use crate::numbers::render_number_list;
use crate::numbers::u64_to_string;

/// Why a request failed: the closed set of recoverable request-level errors.
#[derive(Debug, Clone, PartialEq, Eq)]
pub enum FailureReason {
    /// The collaborator that decodes the request body could not parse it;
    /// the payload is its description of the problem.
    FormParseError(String),
    /// The expected field name is absent from the submission.
    MissingField(String),
    /// The field is present but carries no values; reported like a missing
    /// field, under its own reason.
    NoValuesProvided(String),
    /// A submitted value is not a valid unsigned decimal integer: the field
    /// name and the first offending value.
    NotANumber(String, String),
    /// A submitted value is zero, for which the greatest common divisor is
    /// degenerate.
    ZeroOperand,
}

pub open spec fn spec_form_parse_message(details: Seq<char>) -> Seq<char> {
    "Error parsing form data: "@ + details
}

pub open spec fn spec_missing_field_message(field: Seq<char>) -> Seq<char> {
    "form data has no '"@ + field + "' parameter"@
}

pub open spec fn spec_not_a_number_message(field: Seq<char>, text: Seq<char>) -> Seq<char> {
    "Value for '"@ + field + "' parameter not a number: "@ + text
}

pub open spec fn spec_zero_operand_message() -> Seq<char> {
    "cannot compute the greatest common divisor: a submitted value is zero"@
}

/// The user-visible message for each failure reason.
pub open spec fn spec_failure_message(reason: FailureReason) -> Seq<char> {
    match reason {
        FailureReason::FormParseError(details) => spec_form_parse_message(details@),
        FailureReason::MissingField(field) => spec_missing_field_message(field@),
        FailureReason::NoValuesProvided(field) => spec_missing_field_message(field@),
        FailureReason::NotANumber(field, text) => spec_not_a_number_message(field@, text@),
        FailureReason::ZeroOperand => spec_zero_operand_message(),
    }
}

/// Builds the user-visible message for a failure reason.
pub fn failure_message(reason: &FailureReason) -> (r: String)
    ensures
        r@ == spec_failure_message(*reason),
{
    match reason {
        FailureReason::FormParseError(details) => {
            let mut m = ("Error parsing form data: ").to_owned();
            m.append(details.as_str());
            m
        },
        FailureReason::MissingField(field) => missing_field_text(field),
        FailureReason::NoValuesProvided(field) => missing_field_text(field),
        FailureReason::NotANumber(field, text) => {
            let mut m = ("Value for '").to_owned();
            m.append(field.as_str());
            m.append("' parameter not a number: ");
            m.append(text.as_str());
            proof {
                assert(m@ =~= spec_not_a_number_message(field@, text@));
            }
            m
        },
        FailureReason::ZeroOperand => (
        "cannot compute the greatest common divisor: a submitted value is zero").to_owned(),
    }
}

fn missing_field_text(field: &String) -> (r: String)
    ensures
        r@ == spec_missing_field_message(field@),
{
    let mut m = ("form data has no '").to_owned();
    m.append(field.as_str());
    m.append("' parameter");
    proof {
        assert(m@ =~= spec_missing_field_message(field@));
    }
    m
}

/// The outcome of one request's processing: either the original numbers with
/// their computed divisor, or a failure reason with its user message.
#[derive(Debug, Clone, PartialEq, Eq)]
pub enum ComputationOutcome {
    Success { numbers: Vec<u64>, divisor: u64 },
    Failure { reason: FailureReason, message: String },
}

impl ComputationOutcome {
    /// A failure outcome carries exactly the message of its reason.
    pub open spec fn wf(self) -> bool {
        match self {
            ComputationOutcome::Success { .. } => true,
            ComputationOutcome::Failure { reason, message } => message@ == spec_failure_message(
                reason,
            ),
        }
    }
}

/// Pairs a failure reason with its user-visible message.
pub fn failure_outcome(reason: FailureReason) -> (o: ComputationOutcome)
    ensures
        o matches ComputationOutcome::Failure { reason: r, message } && r == reason,
        o.wf(),
{
    let message = failure_message(&reason);
    ComputationOutcome::Failure { reason, message }
}

/// An HTTP response: a status code and a body.
#[derive(Debug, Clone, PartialEq, Eq)]
pub struct HttpResponse {
    pub status: u16,
    pub body: String,
}

/// The body of a successful response: the original numbers and the divisor,
/// with a trailing newline.
pub open spec fn spec_success_body(numbers: Seq<u64>, divisor: u64) -> Seq<char> {
    "The greatest common divisor of the numbers "@ + spec_number_list(numbers) + " is "@
        + spec_u64_string(divisor as nat) + "\n"@
}

/// Renders an outcome: status 200 with the success message, or status 400
/// with the failure's user message; either body ends in a newline.
pub fn present(outcome: &ComputationOutcome) -> (r: HttpResponse)
    ensures
        outcome matches ComputationOutcome::Success { numbers, divisor } ==> r.status == 200
            && r.body@ == spec_success_body(numbers@, *divisor),
        outcome matches ComputationOutcome::Failure { message, .. } ==> r.status == 400 && r.body@
            == message@ + "\n"@,
{
    match outcome {
        ComputationOutcome::Success { numbers, divisor } => {
            let mut body = ("The greatest common divisor of the numbers ").to_owned();
            let list = render_number_list(numbers);
            body.append(list.as_str());
            body.append(" is ");
            let rendered = u64_to_string(*divisor);
            body.append(rendered.as_str());
            body.append("\n");
            proof {
                assert(body@ =~= spec_success_body(numbers@, *divisor));
            }
            HttpResponse { status: 200, body }
        },
        ComputationOutcome::Failure { message, .. } => {
            let mut body = message.clone();
            body.append("\n");
            HttpResponse { status: 400, body }
        },
    }
}

/// The fixed HTML page with the input form: two text inputs sharing the
/// field name `n`, submitting to the processing route.
pub open spec fn spec_form_page() -> Seq<char> {
    "<title>GCD Calculator</title>\n<form action=\"/gcd\" method=\"post\">\n  <input type=\"text\" name=\"n\"/>\n  <input type=\"text\" name=\"n\"/>\n  <button type=\"submit\">Compute GCD</button>\n</form>\n"@
}

/// Emits the static HTML page with the input form.
pub fn render_form() -> (r: String)
    ensures
        r@ == spec_form_page(),
{
    (
    "<title>GCD Calculator</title>\n<form action=\"/gcd\" method=\"post\">\n  <input type=\"text\" name=\"n\"/>\n  <input type=\"text\" name=\"n\"/>\n  <button type=\"submit\">Compute GCD</button>\n</form>\n").to_owned()
}

} // verus!
