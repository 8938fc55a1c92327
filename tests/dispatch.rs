use mail_scheduler::{record_delivery, scheduled_deliveries, Database, Message, Response, Timestamp, EMAIL_SUBJECT};

fn draft(email: &str, body: Option<&str>, send_at: Option<Timestamp>) -> Message {
    Message {
        id: None,
        email: email.to_string(),
        message_body: body.map(|b| b.to_string()),
        created_at: None,
        send_at,
        send: None,
    }
}

fn now() -> Timestamp {
    let t = chrono::Utc::now();
    Timestamp::new(t.timestamp(), t.timestamp_subsec_nanos())
}

#[test]
fn due_message_is_sent_once_and_marked() {
    let mut db = Database::new();
    let t = now();
    let created = db.create_message(draft("a@x.com", Some("hello"), Some(Timestamp::new(t.secs - 1, t.nanos)))).unwrap();
    let id = created.id.clone().unwrap();
    let plan = scheduled_deliveries(&db.get_messages(), now());
    assert_eq!(plan.len(), 1);
    assert_eq!(plan[0].to, "a@x.com");
    assert_eq!(plan[0].subject, EMAIL_SUBJECT);
    assert_eq!(plan[0].subject, "E-mail scheduler");
    assert_eq!(plan[0].body, "hello");
    let marked = record_delivery(&mut db, &plan[0], true).unwrap();
    assert_eq!(marked.send, Some(true));
    assert_eq!(db.get_message_by_id(&id).unwrap().send, Some(true));
    for _ in 0..3 {
        assert!(scheduled_deliveries(&db.get_messages(), now()).is_empty());
    }
}

#[test]
fn failed_delivery_is_retried_next_tick() {
    let mut db = Database::new();
    db.insert_message(draft("a@x.com", None, Some(Timestamp::new(100, 0))), "k1".to_string(), Timestamp::new(0, 0))
        .unwrap();
    let plan = scheduled_deliveries(&db.get_messages(), Timestamp::new(200, 0));
    assert_eq!(plan.len(), 1);
    assert!(record_delivery(&mut db, &plan[0], false).is_none());
    assert_eq!(db.get_message_by_id("k1").unwrap().send, Some(false));
    let again = scheduled_deliveries(&db.get_messages(), Timestamp::new(210, 0));
    assert_eq!(again.len(), 1);
    assert_eq!(again[0].message.id, Some("k1".to_string()));
}

#[test]
fn future_message_waits_for_its_time() {
    let mut db = Database::new();
    db.insert_message(draft("a@x.com", None, Some(Timestamp::new(100, 500))), "k1".to_string(), Timestamp::new(0, 0))
        .unwrap();
    assert!(scheduled_deliveries(&db.get_messages(), Timestamp::new(90, 0)).is_empty());
    assert!(scheduled_deliveries(&db.get_messages(), Timestamp::new(100, 499)).is_empty());
    assert_eq!(scheduled_deliveries(&db.get_messages(), Timestamp::new(100, 500)).len(), 1);
    assert_eq!(scheduled_deliveries(&db.get_messages(), Timestamp::new(110, 0)).len(), 1);
}

#[test]
fn unscheduled_message_is_never_sent() {
    let mut db = Database::new();
    db.insert_message(draft("a@x.com", None, None), "k1".to_string(), Timestamp::new(0, 0)).unwrap();
    for t in [0i64, 1_000, 4_000_000_000, i64::MAX] {
        assert!(scheduled_deliveries(&db.get_messages(), Timestamp::new(t, 0)).is_empty());
    }
}

#[test]
fn sent_message_is_skipped_even_when_due() {
    let mut m = draft("a@x.com", None, Some(Timestamp::new(1, 0)));
    m.id = Some("k".to_string());
    m.send = Some(true);
    assert!(scheduled_deliveries(&vec![m], Timestamp::new(5, 0)).is_empty());
}

#[test]
fn plan_keeps_snapshot_order_and_skips_others() {
    let mk = |id: &str, email: &str, at: Option<i64>, sent: Option<bool>| {
        let mut m = draft(email, Some(id), at.map(|s| Timestamp::new(s, 0)));
        m.id = Some(id.to_string());
        m.send = sent;
        m
    };
    let snap = vec![
        mk("a", "a@x.com", Some(5), None),
        mk("b", "b@x.com", None, Some(false)),
        mk("c", "c@x.com", Some(50), Some(false)),
        mk("d", "d@x.com", Some(1), Some(true)),
        mk("e", "e@x.com", Some(10), Some(false)),
    ];
    let plan = scheduled_deliveries(&snap, Timestamp::new(10, 0));
    let to: Vec<&str> = plan.iter().map(|d| d.to.as_str()).collect();
    assert_eq!(to, vec!["a@x.com", "e@x.com"]);
    assert_eq!(plan[1].body, "e");
}

#[test]
fn absent_body_is_sent_as_empty_text() {
    let mut m = draft("a@x.com", None, Some(Timestamp::new(1, 0)));
    m.id = Some("k".to_string());
    let plan = scheduled_deliveries(&vec![m], Timestamp::new(1, 0));
    assert_eq!(plan[0].body, "");
}

#[test]
fn delivery_for_deleted_message_marks_nothing() {
    let mut db = Database::new();
    db.insert_message(draft("a@x.com", None, Some(Timestamp::new(1, 0))), "k1".to_string(), Timestamp::new(0, 0))
        .unwrap();
    let plan = scheduled_deliveries(&db.get_messages(), Timestamp::new(2, 0));
    db.delete_message_by_id("k1").unwrap();
    assert!(record_delivery(&mut db, &plan[0], true).is_none());
    assert!(db.get_messages().is_empty());
}

#[test]
fn fixed_route_payloads() {
    assert_eq!(Response::health_status().message, "Everything is working fine");
    assert_eq!(Response::resource_not_found().message, "Resource not found");
}
