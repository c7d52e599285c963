use queuedesk::CoreError;
use queuedesk::json::JsonValue;
use queuedesk::store::{
    collection_url, document_body, document_url, fetch_today_documents, list_collection,
    DocumentRef, DocumentRequest, FetchOutcome, DEFAULT_AMOUNT,
};
use queuedesk::time::DateYmd;

fn response(ok: bool, body: &str) -> FetchOutcome {
    FetchOutcome::Response { ok, body: body.to_string() }
}

#[test]
fn urls_match_store_layout() {
    assert_eq!(
        collection_url("my-project", "appointments"),
        "https://firestore.googleapis.com/v1/projects/my-project/databases/(default)/documents/appointments"
    );
    assert_eq!(
        document_url("my-project", "appointments", "abc123"),
        "https://firestore.googleapis.com/v1/projects/my-project/databases/(default)/documents/appointments/abc123"
    );
}

#[test]
fn document_ref_resolves_to_url() {
    let listing = DocumentRef {
        project: "p".to_string(),
        collection: "c".to_string(),
        document_id: None,
    };
    assert_eq!(listing.url(), collection_url("p", "c"));
    let single = DocumentRef {
        project: "p".to_string(),
        collection: "c".to_string(),
        document_id: Some("d".to_string()),
    };
    assert_eq!(single.url(), document_url("p", "c", "d"));
}

#[test]
fn transport_failure_is_surfaced() {
    assert!(matches!(list_collection(FetchOutcome::Transport), Err(CoreError::Transport)));
    assert!(matches!(document_body(FetchOutcome::Transport), Err(CoreError::Transport)));
}

#[test]
fn non_success_status_is_not_found() {
    assert!(matches!(list_collection(response(false, "{}")), Err(CoreError::NotFound)));
    assert!(matches!(document_body(response(false, "{}")), Err(CoreError::NotFound)));
}

#[test]
fn unparseable_body_is_decode_error() {
    assert!(matches!(list_collection(response(true, "not json")), Err(CoreError::Decode)));
    assert!(matches!(document_body(response(true, "{broken")), Err(CoreError::Decode)));
}

#[test]
fn missing_documents_key_is_shape_error() {
    assert!(matches!(list_collection(response(true, "{}")), Err(CoreError::Shape)));
    assert!(matches!(
        list_collection(response(true, r#"{"items":[]}"#)),
        Err(CoreError::Shape)
    ));
}

#[test]
fn empty_documents_array_succeeds_with_zero() {
    let r = list_collection(response(true, r#"{"documents":[]}"#));
    assert!(matches!(&r, Ok(docs) if docs.is_empty()));
}

#[test]
fn envelope_fields_are_decoded() {
    let body = r#"{"documents":[{"name":"d1","fields":{
        "scheduled_date":{"timestampValue":"2000-01-02T10:00:00Z"},
        "time_slot":{"stringValue":"09:30"},
        "queue_number":{"integerValue":7}}}]}"#;
    let docs = list_collection(response(true, body)).unwrap();
    assert_eq!(docs.len(), 1);
    assert_eq!(docs[0].time_slot, "09:30");
    assert_eq!(docs[0].queue_number, 7);
    assert!(docs[0].scheduled_day.is_some());
    let d = docs[0].scheduled_day.unwrap();
    assert_eq!(d.year, 2000);
    assert!(matches!(docs[0].raw, JsonValue::Object(_)));
}

#[test]
fn missing_envelope_fields_take_defaults() {
    let body = r#"{"documents":[{"fields":{}}]}"#;
    let docs = list_collection(response(true, body)).unwrap();
    assert_eq!(docs.len(), 1);
    assert_eq!(docs[0].time_slot, "");
    assert_eq!(docs[0].queue_number, 0);
    assert!(docs[0].scheduled_day.is_none());
}

#[test]
fn garbage_timestamp_means_no_day() {
    let body = r#"{"documents":[{"fields":{
        "scheduled_date":{"timestampValue":"soon"}}}]}"#;
    let docs = list_collection(response(true, body)).unwrap();
    assert_eq!(docs.len(), 1);
    assert!(docs[0].scheduled_day.is_none());
}

#[test]
fn document_body_returns_parsed_payload() {
    let r = document_body(response(true, r#"{"name":"d1","fields":{}}"#)).unwrap();
    let name = r.get_field("name").unwrap();
    assert_eq!(name.as_text().unwrap(), "d1");
}

#[test]
fn fetch_today_runs_whole_pipeline() {
    let now = chrono::Local::now();
    let today = DateYmd {
        year: chrono::Datelike::year(&now),
        month: chrono::Datelike::month(&now),
        day: chrono::Datelike::day(&now),
    };
    let stamp = now.to_rfc3339();
    let body = format!(
        r#"{{"documents":[
            {{"fields":{{"scheduled_date":{{"timestampValue":"{stamp}"}},
                "time_slot":{{"stringValue":"10:00"}},"queue_number":{{"integerValue":2}}}}}},
            {{"fields":{{"scheduled_date":{{"timestampValue":"{stamp}"}},
                "time_slot":{{"stringValue":"09:00"}},"queue_number":{{"integerValue":5}}}}}},
            {{"fields":{{"scheduled_date":{{"timestampValue":"2000-01-02T10:00:00Z"}},
                "time_slot":{{"stringValue":"08:00"}},"queue_number":{{"integerValue":1}}}}}}
        ]}}"#
    );
    let out = fetch_today_documents(response(true, &body), 10, today).unwrap();
    assert_eq!(out.len(), 2);
    assert_eq!(out[0].time_slot, "09:00");
    assert_eq!(out[1].time_slot, "10:00");

    let err = fetch_today_documents(FetchOutcome::Transport, 10, today);
    assert!(matches!(err, Err(CoreError::Transport)));
}

#[test]
fn request_id_rejects_missing_and_empty() {
    let none = DocumentRequest { id: None, amount: None };
    assert!(none.document_id().is_none());
    let empty = DocumentRequest { id: Some(String::new()), amount: None };
    assert!(empty.document_id().is_none());
    let good = DocumentRequest { id: Some("abc".to_string()), amount: None };
    assert_eq!(good.document_id().unwrap(), "abc");
}

#[test]
fn request_amount_defaults_to_ten() {
    let none = DocumentRequest { id: None, amount: None };
    assert_eq!(none.amount_or_default(), DEFAULT_AMOUNT);
    assert_eq!(DEFAULT_AMOUNT, 10);
    let some = DocumentRequest { id: None, amount: Some(3) };
    assert_eq!(some.amount_or_default(), 3);
}

#[test]
fn error_messages_name_the_failure() {
    assert_eq!(CoreError::Auth.message(), "Error fetching OAuth token");
    assert_eq!(CoreError::Shape.message(), "Error fetching documents");
}
