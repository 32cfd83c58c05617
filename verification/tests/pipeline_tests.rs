use gcd_server::extract::ExtractionError;
use gcd_server::extract::FormSubmission;
use gcd_server::pipeline::handle_submission;
use gcd_server::pipeline::process_submission;
use gcd_server::present::present;
use gcd_server::present::failure_outcome;
use gcd_server::present::render_form;
use gcd_server::present::ComputationOutcome;
use gcd_server::present::FailureReason;

fn submission(entries: Vec<(&str, Vec<&str>)>) -> FormSubmission {
    FormSubmission {
        fields: entries
            .into_iter()
            .map(|(name, values)| {
                (name.to_string(), values.into_iter().map(|v| v.to_string()).collect())
            })
            .collect(),
    }
}

#[test]
fn two_valid_values_compute_and_render() {
    let sub = submission(vec![("n", vec!["14", "21"])]);
    assert_eq!(sub.extract_numbers("n"), Ok(vec![14, 21]));
    let response = handle_submission(&sub, "n");
    assert_eq!(response.status, 200);
    assert_eq!(response.body, "The greatest common divisor of the numbers [14, 21] is 7\n");
}

#[test]
fn missing_field_is_reported() {
    let sub = submission(vec![]);
    assert_eq!(sub.extract_numbers("n"), Err(ExtractionError::MissingField("n".to_string())));
    let response = handle_submission(&sub, "n");
    assert_eq!(response.status, 400);
    assert_eq!(response.body, "form data has no 'n' parameter\n");
}

#[test]
fn other_fields_do_not_stand_in() {
    let sub = submission(vec![("m", vec!["14"])]);
    assert_eq!(sub.extract_numbers("n"), Err(ExtractionError::MissingField("n".to_string())));
}

#[test]
fn empty_value_list_is_reported() {
    let sub = submission(vec![("n", vec![])]);
    assert_eq!(sub.extract_numbers("n"), Err(ExtractionError::NoValuesProvided));
    let response = handle_submission(&sub, "n");
    assert_eq!(response.status, 400);
    assert_eq!(response.body, "form data has no 'n' parameter\n");
}

#[test]
fn first_offending_value_is_reported() {
    let sub = submission(vec![("n", vec!["14", "abc"])]);
    assert_eq!(sub.extract_numbers("n"), Err(ExtractionError::NotANumber("abc".to_string())));
    let sub2 = submission(vec![("n", vec!["14", "abc", "xyz"])]);
    assert_eq!(sub2.extract_numbers("n"), Err(ExtractionError::NotANumber("abc".to_string())));
    let response = handle_submission(&sub2, "n");
    assert_eq!(response.status, 400);
    assert_eq!(response.body, "Value for 'n' parameter not a number: abc\n");
}

#[test]
fn zero_is_extracted_but_fails_reduction() {
    let sub = submission(vec![("n", vec!["0", "5"])]);
    assert_eq!(sub.extract_numbers("n"), Ok(vec![0, 5]));
    let outcome = process_submission(&sub, "n");
    assert!(matches!(
        outcome,
        ComputationOutcome::Failure { reason: FailureReason::ZeroOperand, .. }
    ));
    let response = handle_submission(&sub, "n");
    assert_eq!(response.status, 400);
    assert_eq!(
        response.body,
        "cannot compute the greatest common divisor: a submitted value is zero\n"
    );
}

#[test]
fn form_parse_failure_is_rendered() {
    let outcome = failure_outcome(FailureReason::FormParseError("boom".to_string()));
    let response = present(&outcome);
    assert_eq!(response.status, 400);
    assert_eq!(response.body, "Error parsing form data: boom\n");
}

#[test]
fn pipeline_is_idempotent() {
    let sub = submission(vec![("n", vec!["14", "21"])]);
    let first = handle_submission(&sub, "n");
    let second = handle_submission(&sub, "n");
    assert_eq!(first, second);
    let bad = submission(vec![("n", vec!["14", "abc"])]);
    let first_bad = handle_submission(&bad, "n");
    let second_bad = handle_submission(&bad, "n");
    assert_eq!(first_bad, second_bad);
}

#[test]
fn form_page_offers_the_field() {
    let page = render_form();
    assert!(page.contains("<form action=\"/gcd\" method=\"post\">"));
    assert!(page.contains("name=\"n\""));
    assert!(page.contains("<button type=\"submit\">Compute GCD</button>"));
}

#[test]
fn first_field_with_the_name_wins() {
    let sub = submission(vec![("n", vec!["4", "6"]), ("n", vec!["5"])]);
    assert_eq!(sub.extract_numbers("n"), Ok(vec![4, 6]));
    let response = handle_submission(&sub, "n");
    assert_eq!(response.status, 200);
    assert_eq!(response.body, "The greatest common divisor of the numbers [4, 6] is 2\n");
}

#[test]
fn single_value_is_its_own_divisor() {
    let sub = submission(vec![("n", vec!["7"])]);
    let response = handle_submission(&sub, "n");
    assert_eq!(response.status, 200);
    assert_eq!(response.body, "The greatest common divisor of the numbers [7] is 7\n");
}
