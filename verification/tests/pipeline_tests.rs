use queuedesk::json::JsonValue;
use queuedesk::pipeline::{select, select_today, filter_today, sort_documents, limit, QueueDocument};
use queuedesk::time::DateYmd;

fn day(year: i32, month: u32, day: u32) -> DateYmd {
    DateYmd { year, month, day }
}

fn doc(scheduled: Option<DateYmd>, slot: &str, queue: i64, tag: i64) -> QueueDocument {
    QueueDocument {
        scheduled_day: scheduled,
        time_slot: slot.to_string(),
        queue_number: queue,
        raw: JsonValue::Int(tag),
    }
}

fn tag(d: &QueueDocument) -> i64 {
    match d.raw {
        JsonValue::Int(t) => t,
        _ => panic!("unexpected payload"),
    }
}

#[test]
fn select_scenario_two_of_three() {
    let today = day(2024, 5, 6);
    let yesterday = day(2024, 5, 5);
    let docs = vec![
        doc(Some(today), "09:00", 3, 1),
        doc(Some(today), "09:00", 1, 2),
        doc(Some(yesterday), "08:00", 1, 3),
    ];
    let out = select(docs, 5, today);
    assert_eq!(out.len(), 2);
    assert_eq!(out[0].time_slot, "09:00");
    assert_eq!(out[0].queue_number, 1);
    assert_eq!(out[1].time_slot, "09:00");
    assert_eq!(out[1].queue_number, 3);
}

#[test]
fn select_empty_collection() {
    let today = day(2024, 5, 6);
    let out = select(Vec::new(), 10, today);
    assert!(out.is_empty());
}

#[test]
fn select_zero_amount() {
    let today = day(2024, 5, 6);
    let docs = vec![doc(Some(today), "09:00", 1, 1), doc(Some(today), "10:00", 2, 2)];
    let out = select(docs, 0, today);
    assert!(out.is_empty());
}

#[test]
fn select_amount_beyond_matching() {
    let today = day(2024, 5, 6);
    let docs = vec![doc(Some(today), "10:00", 2, 1), doc(Some(today), "09:00", 1, 2)];
    let out = select(docs, 100, today);
    assert_eq!(out.len(), 2);
    assert_eq!(out[0].time_slot, "09:00");
    assert_eq!(out[1].time_slot, "10:00");
}

#[test]
fn select_truncates_to_amount() {
    let today = day(2024, 5, 6);
    let docs = vec![
        doc(Some(today), "11:00", 1, 1),
        doc(Some(today), "09:00", 1, 2),
        doc(Some(today), "10:00", 1, 3),
    ];
    let out = select(docs, 2, today);
    assert_eq!(out.len(), 2);
    assert_eq!(out[0].time_slot, "09:00");
    assert_eq!(out[1].time_slot, "10:00");
}

#[test]
fn filter_drops_unparseable_dates() {
    let today = day(2024, 5, 6);
    let docs = vec![
        doc(None, "09:00", 1, 1),
        doc(Some(today), "10:00", 2, 2),
        doc(None, "08:00", 3, 3),
    ];
    let out = filter_today(docs, today);
    assert_eq!(out.len(), 1);
    assert_eq!(out[0].time_slot, "10:00");
}

#[test]
fn filter_retains_every_match_in_order() {
    let today = day(2024, 5, 6);
    let other = day(2023, 1, 1);
    let docs = vec![
        doc(Some(other), "07:00", 1, 1),
        doc(Some(today), "10:00", 2, 2),
        doc(Some(today), "09:00", 3, 3),
    ];
    let out = filter_today(docs, today);
    assert_eq!(out.len(), 2);
    assert_eq!(tag(&out[0]), 2);
    assert_eq!(tag(&out[1]), 3);
}

#[test]
fn sort_is_stable_on_equal_keys() {
    let today = day(2024, 5, 6);
    let docs = vec![
        doc(Some(today), "09:00", 1, 1),
        doc(Some(today), "09:00", 1, 2),
        doc(Some(today), "09:00", 1, 3),
    ];
    let out = sort_documents(docs);
    assert_eq!(out.len(), 3);
    assert_eq!(tag(&out[0]), 1);
    assert_eq!(tag(&out[1]), 2);
    assert_eq!(tag(&out[2]), 3);
}

#[test]
fn sort_orders_by_slot_then_queue() {
    let today = day(2024, 5, 6);
    let docs = vec![
        doc(Some(today), "10:00", 1, 1),
        doc(Some(today), "09:00", 7, 2),
        doc(Some(today), "09:00", 2, 3),
        doc(Some(today), "", 9, 4),
    ];
    let out = sort_documents(docs);
    assert_eq!(tag(&out[0]), 4);
    assert_eq!(tag(&out[1]), 3);
    assert_eq!(tag(&out[2]), 2);
    assert_eq!(tag(&out[3]), 1);
}

#[test]
fn excluded_even_when_listed_first() {
    let today = day(2024, 5, 6);
    let other = day(2024, 5, 7);
    let docs = vec![
        doc(Some(other), "01:00", 0, 1),
        doc(None, "02:00", 0, 2),
        doc(Some(today), "09:00", 1, 3),
    ];
    let out = select(docs, 10, today);
    assert_eq!(out.len(), 1);
    assert_eq!(tag(&out[0]), 3);
}

#[test]
fn limit_keeps_prefix() {
    let today = day(2024, 5, 6);
    let docs = vec![
        doc(Some(today), "09:00", 1, 1),
        doc(Some(today), "10:00", 2, 2),
    ];
    let out = limit(docs, 1);
    assert_eq!(out.len(), 1);
    assert_eq!(tag(&out[0]), 1);
}

#[test]
fn select_today_uses_one_clock_day() {
    let docs = vec![
        doc(None, "09:00", 1, 1),
        doc(None, "10:00", 2, 2),
    ];
    let out = select_today(docs, 10);
    assert!(out.is_empty());
}
