use http::StatusCode;
use problemdetails::handler::GENERIC_MESSAGE;
use problemdetails::PanicHandlerBuilder;
use problemdetails::new;
use serde_json::Value;

fn parsed(body: &str) -> Value {
    serde_json::from_str(body).unwrap()
}

#[test]
fn default_panic() {
    let handler = PanicHandlerBuilder::new(true);

    let response = handler.response_for_panic(Some("Panic message"));

    assert!(response.status_code == StatusCode::INTERNAL_SERVER_ERROR);
    assert!(response.content_type == Some("application/problem+json"));
    let body = parsed(&response.body);

    let snapshot: Value = serde_json::from_str(
        r#"
        {
          "detail": "Panic message",
          "title": "Internal server error"
        }
        "#,
    )
    .unwrap();
    assert_eq!(body, snapshot);
}

#[test]
fn fill_panic_message_false() {
    let handler = PanicHandlerBuilder::new(true).with_fill_detail(false);

    let response = handler.response_for_panic(Some("Panic message"));

    assert!(response.status_code == StatusCode::INTERNAL_SERVER_ERROR);
    assert!(response.content_type == Some("application/problem+json"));
    let body = parsed(&response.body);

    let snapshot: Value = serde_json::from_str(
        "\n        {\n          \"title\": \"Internal server error\"\n        }\n        ",
    )
    .unwrap();
    assert_eq!(body, snapshot);
}

#[test]
fn customized_panic() {
    let handler = PanicHandlerBuilder::new(true)
        .with_problem(new(StatusCode::IM_A_TEAPOT).with_instance("some instance"));

    let response = handler.response_for_panic(Some("Panic message"));

    assert!(response.status_code == StatusCode::IM_A_TEAPOT);
    assert!(response.content_type == Some("application/problem+json"));
    let body = parsed(&response.body);

    let snapshot: Value = serde_json::from_str(
        r#"
        {
          "detail": "Panic message",
          "instance": "some instance"
        }
        "#,
    )
    .unwrap();
    assert_eq!(body, snapshot);
}

#[test]
fn development_default_shows_the_message() {
    let response = PanicHandlerBuilder::new(true).response_for_panic(Some("Oh no!"));
    assert_eq!(response.status(), 500);
    assert_eq!(response.content_type, Some("application/problem+json"));
    assert_eq!(response.body, r#"{"detail":"Oh no!","title":"Internal server error"}"#);
}

#[test]
fn production_default_hides_the_message() {
    let response = PanicHandlerBuilder::new(false).response_for_panic(Some("Oh no!"));
    assert_eq!(response.status(), 500);
    assert_eq!(response.content_type, Some("application/problem+json"));
    assert_eq!(response.body, r#"{"title":"Internal server error"}"#);
}

#[test]
fn fill_detail_false_renders_the_base_problem() {
    let response =
        PanicHandlerBuilder::new(true).with_fill_detail(false).response_for_panic(Some("Oh no!"));
    assert_eq!(response.status(), 500);
    assert_eq!(response.body, r#"{"title":"Internal server error"}"#);
}

#[test]
fn custom_base_problem_with_detail() {
    let handler = PanicHandlerBuilder::new(false)
        .with_problem(new(StatusCode::IM_A_TEAPOT).with_instance("some instance"))
        .with_fill_detail(true);
    let response = handler.response_for_panic(Some("<message>"));
    assert_eq!(response.status(), 418);
    assert_eq!(response.content_type, Some("application/problem+json"));
    assert_eq!(response.body, r#"{"detail":"<message>","instance":"some instance"}"#);
}

#[test]
fn failure_without_text_gets_the_generic_text() {
    assert_eq!(GENERIC_MESSAGE, "Internal server error");
    let response = PanicHandlerBuilder::new(true).response_for_panic(None);
    assert_eq!(
        response.body,
        r#"{"detail":"Internal server error","title":"Internal server error"}"#
    );
}

#[test]
fn message_replaces_the_detail_of_the_base_problem() {
    let handler = PanicHandlerBuilder::new(true)
        .with_problem(new(StatusCode::BAD_GATEWAY).with_detail("configured").with_title("t"));
    let shown = handler.response_for_panic(Some("captured"));
    assert_eq!(shown.status(), 502);
    assert_eq!(shown.body, r#"{"detail":"captured","title":"t"}"#);
    let hidden = handler.with_fill_detail(false).response_for_panic(Some("captured"));
    assert_eq!(hidden.body, r#"{"detail":"configured","title":"t"}"#);
}

#[test]
fn bare_base_problem_without_detail_has_no_body() {
    let handler =
        PanicHandlerBuilder::new(false).with_problem(new(StatusCode::SERVICE_UNAVAILABLE));
    let response = handler.response_for_panic(Some("captured"));
    assert_eq!(response.status(), 503);
    assert_eq!(response.content_type, None);
    assert_eq!(response.body, "");
}

#[test]
fn handler_answers_every_failure_from_the_same_base() {
    let handler = PanicHandlerBuilder::new(true);
    let first = handler.response_for_panic(Some("one"));
    let second = handler.response_for_panic(Some("two"));
    assert_eq!(first.body, r#"{"detail":"one","title":"Internal server error"}"#);
    assert_eq!(second.body, r#"{"detail":"two","title":"Internal server error"}"#);
    let copy = handler.clone();
    let third = copy.response_for_panic(None);
    assert_eq!(third.status(), 500);
}
