//! Request trace identifiers.

use std::collections::HashSet;

use nusa::types::TraceId;

#[test]
fn trace_id_display_format() {
    let id = TraceId::new();
    let display = id.to_string();
    assert_eq!(display.len(), 36);
    assert_eq!(display.chars().filter(|c| *c == '-').count(), 4);
}

#[test]
fn trace_id_as_uuid_roundtrip() {
    let id = TraceId::new();
    let uuid = id.as_uuid();
    let recovered = TraceId::from_uuid(uuid);
    assert_eq!(id, recovered);
}

#[test]
fn trace_id_default_is_valid() {
    let id = TraceId::default();
    assert!(!id.to_string().is_empty());
}

#[test]
fn trace_id_many_unique() {
    let mut ids = HashSet::new();
    for _ in 0..10_000 {
        let id = TraceId::new();
        assert!(ids.insert(id), "each TraceId must be unique");
    }
}

#[test]
fn trace_id_new_generates_unique() {
    let t1 = TraceId::new();
    let t2 = TraceId::new();
    assert_ne!(t1, t2, "new trace IDs should be unique");
}

#[test]
fn trace_id_from_uuid_roundtrip() {
    let uuid = uuid::Uuid::new_v4();
    let trace = TraceId::from_uuid(uuid.as_u128());
    assert_eq!(trace.as_uuid(), uuid.as_u128());
}

#[test]
fn trace_id_display_not_empty() {
    let trace = TraceId::new();
    let s = trace.to_string();
    assert!(!s.is_empty());
}

#[test]
fn trace_id_text_is_grouped_lower_hex() {
    let uuid = uuid::Uuid::from_u128(0x67E5_5044_10B1_426F_9247_BB68_0E5F_E0C8);
    let trace = TraceId::from_uuid(uuid.as_u128());
    assert_eq!(trace.to_string(), "67e55044-10b1-426f-9247-bb680e5fe0c8");
    assert_eq!(trace.to_string(), uuid.to_string());
    let v = uuid::Uuid::from_u128(TraceId::new().as_uuid());
    assert_eq!(v.get_version_num(), 4);
}
