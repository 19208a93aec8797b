//! The wire renderings: JSON escaping, decimal identifiers, query bodies,
//! dates, and the project marker file.

use flowlet::api_client::{status_is_success, ApiClientError, ApiResponse};
use flowlet::date::{format_date, parse_date, Date};
use flowlet::json::{escape, opt_string_value, quote, u64_string};
use flowlet::project::render_config_toml;
use flowlet::query::{find_body_string, update_body_string, Query, QueryField, QueryValue};

#[test]
fn decimal_rendering() {
    assert_eq!(u64_string(0), "0");
    assert_eq!(u64_string(7), "7");
    assert_eq!(u64_string(1234567890), "1234567890");
    assert_eq!(u64_string(u64::MAX), "18446744073709551615");
}

#[test]
fn escape_passes_plain_text_through() {
    assert_eq!(escape("echo hello"), "echo hello");
    assert_eq!(escape(""), "");
}

#[test]
fn escape_handles_quotes_backslashes_and_controls() {
    assert_eq!(escape("a\"b"), "a\\\"b");
    assert_eq!(escape("a\\b"), "a\\\\b");
    assert_eq!(escape("a\nb\tc\rd"), "a\\nb\\tc\\rd");
    assert_eq!(escape("\u{01}"), "\\u0001");
    assert_eq!(escape("\u{1f}"), "\\u001f");
}

#[test]
fn quoting_wraps_and_escapes() {
    assert_eq!(quote("say \"hi\""), "\"say \\\"hi\\\"\"");
    assert_eq!(opt_string_value(&None), "null");
    assert_eq!(opt_string_value(&Some(String::from("x"))), "\"x\"");
}

#[test]
fn query_wire_forms() {
    assert_eq!(Query::All.wire(), "\"all\"");
    let q = Query::Eq(QueryField::Name, QueryValue::Text(String::from("deploy")));
    assert_eq!(q.wire(), "{\"eq\":[\"name\",\"deploy\"]}");
    let by_id = Query::Eq(QueryField::Id, QueryValue::Num(42));
    assert_eq!(by_id.wire(), "{\"eq\":[\"_id\",42]}");
}

#[test]
fn request_bodies_embed_the_query() {
    let q = Query::Eq(QueryField::Title, QueryValue::Text(String::from("t")));
    assert_eq!(find_body_string(&q), "{\"query\":{\"eq\":[\"title\",\"t\"]}}");
    assert_eq!(
        update_body_string(&q, "{\"_id\":1}"),
        "{\"query\":{\"eq\":[\"title\",\"t\"]},\"document\":{\"_id\":1}}"
    );
}

#[test]
fn dates_render_zero_padded() {
    let d = Date { year: 2025, month: 1, day: 15 };
    assert_eq!(format_date(&d), "2025-01-15");
    let e = Date { year: 33, month: 12, day: 3 };
    assert_eq!(format_date(&e), "0033-12-03");
}

#[test]
fn date_parsing_round_trips() {
    let d = parse_date("2025-01-15").unwrap();
    assert_eq!(d, Date { year: 2025, month: 1, day: 15 });
    assert_eq!(format_date(&d), "2025-01-15");
}

#[test]
fn date_parsing_rejects_bad_shapes() {
    assert!(parse_date("2025-1-15").is_none());
    assert!(parse_date("2025/01/15").is_none());
    assert!(parse_date("20250115").is_none());
    assert!(parse_date("").is_none());
    assert!(parse_date("abcd-ef-gh").is_none());
}

#[test]
fn date_parsing_applies_the_calendar() {
    assert!(parse_date("2024-02-29").is_some());
    assert!(parse_date("2023-02-29").is_none());
    assert!(parse_date("1900-02-29").is_none());
    assert!(parse_date("2000-02-29").is_some());
    assert!(parse_date("2025-04-31").is_none());
    assert!(parse_date("2025-13-01").is_none());
    assert!(parse_date("2025-00-10").is_none());
    assert!(parse_date("0000-01-01").is_none());
}

#[test]
fn status_classification_accepts_the_2xx_class() {
    assert!(status_is_success(200));
    assert!(status_is_success(204));
    assert!(status_is_success(299));
    assert!(!status_is_success(199));
    assert!(!status_is_success(300));
    assert!(!status_is_success(404));
    assert!(!status_is_success(500));
}

#[test]
fn api_error_messages() {
    assert_eq!(
        ApiClientError::UrlParseError.message(),
        "Failed to parse Base Server URL."
    );
    assert_eq!(
        ApiClientError::PostError(String::from("boom")).message(),
        "Failed to POST: boom"
    );
    assert_eq!(
        ApiClientError::DecodeError.message(),
        "Failed to decode response body."
    );
}

#[test]
fn envelope_helpers_pass_data_through() {
    let resp: ApiResponse<u64> = ApiResponse { data: Some(5), message: None };
    assert_eq!(flowlet::api_client::remote_find_result(resp), Some(5));
    let empty: ApiResponse<Vec<u64>> = ApiResponse { data: None, message: Some(String::from("x")) };
    assert_eq!(flowlet::api_client::remote_list_result(empty), Vec::<u64>::new());
    let full: ApiResponse<Vec<u64>> = ApiResponse { data: Some(vec![1, 2]), message: None };
    assert_eq!(flowlet::api_client::remote_list_result(full), vec![1, 2]);
}

#[test]
fn config_toml_with_description() {
    let text = render_config_toml("api", &Some(String::from("the backend")), "local");
    assert_eq!(
        text,
        "[project]\nname = \"api\"\ndescription = \"the backend\"\nenvironment = \"local\"\n"
    );
}

#[test]
fn config_toml_without_description() {
    let text = render_config_toml("api", &None, "prod");
    assert_eq!(text, "[project]\nname = \"api\"\nenvironment = \"prod\"\n");
}
