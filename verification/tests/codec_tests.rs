use fileog::codec::{decode_kind, decode_status, encode_kind, encode_status};
use fileog::operation::{OperationStatus, OperationType};

#[test]
fn kinds_encode_to_their_stored_names() {
    assert_eq!(encode_kind(OperationType::Move), "move");
    assert_eq!(encode_kind(OperationType::Copy), "copy");
    assert_eq!(encode_kind(OperationType::Rename), "rename");
    assert_eq!(encode_kind(OperationType::Delete), "delete");
}

#[test]
fn kinds_round_trip_through_the_stored_form() {
    for kind in [
        OperationType::Move,
        OperationType::Copy,
        OperationType::Rename,
        OperationType::Delete,
    ] {
        assert_eq!(decode_kind(&encode_kind(kind)), Some(kind));
    }
}

#[test]
fn unknown_kind_string_is_rejected() {
    assert_eq!(decode_kind(&"shred".to_string()), None);
    assert_eq!(decode_kind(&"".to_string()), None);
    assert_eq!(decode_kind(&"MOVE".to_string()), None);
}

#[test]
fn statuses_encode_to_their_stored_names() {
    assert_eq!(encode_status(&OperationStatus::Pending), "pending");
    assert_eq!(encode_status(&OperationStatus::InProgress), "in_progress");
    assert_eq!(encode_status(&OperationStatus::Completed), "completed");
    assert_eq!(encode_status(&OperationStatus::Undone), "undone");
    assert_eq!(
        encode_status(&OperationStatus::Failed("disk full".to_string())),
        "failed:disk full"
    );
}

#[test]
fn statuses_round_trip_through_the_stored_form() {
    let statuses = [
        OperationStatus::Pending,
        OperationStatus::InProgress,
        OperationStatus::Completed,
        OperationStatus::Undone,
        OperationStatus::Failed("no such file".to_string()),
        OperationStatus::Failed("".to_string()),
    ];
    for st in statuses {
        assert_eq!(decode_status(&encode_status(&st)), Some(st));
    }
}

#[test]
fn failed_status_keeps_colons_in_the_message() {
    let st = OperationStatus::Failed("io: sub: detail".to_string());
    let enc = encode_status(&st);
    assert_eq!(enc, "failed:io: sub: detail");
    assert_eq!(decode_status(&enc), Some(st));
}

#[test]
fn unknown_status_string_is_rejected() {
    assert_eq!(decode_status(&"done".to_string()), None);
    assert_eq!(decode_status(&"fail".to_string()), None);
    assert_eq!(decode_status(&"".to_string()), None);
}
