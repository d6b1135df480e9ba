use toy_core::data::Timestamp;
use toy_core::metrics::{EventId, EventRecord, MetricsEventKind, MetricsEvents};
use toy_core::task::TaskId;
use toy_core::{ServiceType, Uri};

#[test]
fn task_id_text_round_trip() {
    let t = TaskId::from(0xa1a2a3a4b1b2c1c2d1d2d3d4d5d6d7d8);
    assert_eq!(t.to_text(), "a1a2a3a4-b1b2-c1c2-d1d2-d3d4d5d6d7d8");
    assert_eq!(TaskId::parse_str(&t.to_text()), Ok(t));
    assert_eq!(TaskId::parse_str("not a uuid"), Err(()));
    let r = TaskId::new();
    assert_eq!(TaskId::parse_str(&r.to_text()), Ok(r));
    assert_eq!(TaskId::default(), TaskId::from(0));
}

#[test]
fn event_records() {
    let t = TaskId::from(7);
    let ts = Timestamp::from_parts(0, 0).unwrap();
    let a = EventRecord::with_task(
        t,
        "task".to_string(),
        Uri::new("u"),
        MetricsEventKind::StartTask,
        ts,
    );
    assert_eq!(a.task_id(), t);
    assert_eq!(a.service_type().full_name(), "builtin.noop");
    let b = EventRecord::with_service(
        t,
        "task".to_string(),
        ServiceType::new("a", "b").unwrap(),
        Uri::new("v"),
        MetricsEventKind::StartService,
        ts,
    );
    assert_eq!(b.uri().as_str(), "v");
    let mut events = MetricsEvents::new();
    let ida = a.event_id();
    events.push(a);
    events.extend(vec![b]);
    let records = events.records();
    assert_eq!(records.len(), 2);
    assert_eq!(records[0].event_id(), ida);
    assert!(EventId::parse_str(&ida.to_text()).is_ok());
}

#[test]
fn task_id_encode_lower() {
    let t = TaskId::from(0xa1a2a3a4b1b2c1c2d1d2d3d4d5d6d7d8);
    let mut buf = TaskId::encode_buffer();
    assert_eq!(buf.len(), 45);
    assert!(buf.iter().all(|b| *b == 0));
    let text = t.encode_lower(&mut buf).to_string();
    assert_eq!(text, "a1a2a3a4-b1b2-c1c2-d1d2-d3d4d5d6d7d8");
    assert_eq!(&buf[..36], text.as_bytes());
    assert!(buf[36..].iter().all(|b| *b == 0));
}

#[test]
fn ids_from_bytes() {
    let bytes: Vec<u8> = (1..=16).collect();
    let t = TaskId::from_slice(&bytes).unwrap();
    assert_eq!(t, TaskId::from(0x0102030405060708090a0b0c0d0e0f10));
    assert_eq!(TaskId::from_slice(&bytes[..15]), Err(()));
    let e = EventId::from_slice(&bytes).unwrap();
    assert_eq!(e, EventId::from(0x0102030405060708090a0b0c0d0e0f10));
    assert!(EventId::from_slice(&[0u8; 17]).is_err());
}
