//! Flat string encoding of operation kinds and statuses, used only at the
//! storage boundary. In memory both are tagged variants; a failure is stored
//! as `failed:` followed by its message.

use vstd::prelude::*;
use vstd::string::*;
use crate::operation::{OperationStatus, OperationType};

verus! {

/// The stored form of an operation kind.
pub open spec fn kind_string(k: OperationType) -> Seq<char> {
    match k {
        OperationType::Move => "move"@,
        OperationType::Copy => "copy"@,
        OperationType::Rename => "rename"@,
        OperationType::Delete => "delete"@,
    }
}

/// The stored form of a status: a fixed tag, or `failed:` plus the message.
pub open spec fn status_string(st: OperationStatus) -> Seq<char> {
    match st {
        OperationStatus::Pending => "pending"@,
        OperationStatus::InProgress => "in_progress"@,
        OperationStatus::Completed => "completed"@,
        OperationStatus::Failed(m) => "failed:"@ + m@,
        OperationStatus::Undone => "undone"@,
    }
}

/// The strings that decode to some status.
pub open spec fn is_status_string(s: Seq<char>) -> bool {
    ||| s == "pending"@
    ||| s == "in_progress"@
    ||| s == "completed"@
    ||| s == "undone"@
    ||| (s.len() >= 7 && s.subrange(0, 7) == "failed:"@)
}

/// The strings that decode to some operation kind.
pub open spec fn is_kind_string(s: Seq<char>) -> bool {
    s == "move"@ || s == "copy"@ || s == "rename"@ || s == "delete"@
}

/// Equality of statuses up to the text of a failure message.
pub open spec fn status_matches(a: OperationStatus, b: OperationStatus) -> bool {
    match (a, b) {
        (OperationStatus::Pending, OperationStatus::Pending) => true,
        (OperationStatus::InProgress, OperationStatus::InProgress) => true,
        (OperationStatus::Completed, OperationStatus::Completed) => true,
        (OperationStatus::Failed(m1), OperationStatus::Failed(m2)) => m1@ == m2@,
        (OperationStatus::Undone, OperationStatus::Undone) => true,
        _ => false,
    }
}

pub fn encode_kind(k: OperationType) -> (r: String)
    ensures
        r@ == kind_string(k),
{
    match k {
        OperationType::Move => "move".to_owned(),
        OperationType::Copy => "copy".to_owned(),
        OperationType::Rename => "rename".to_owned(),
        OperationType::Delete => "delete".to_owned(),
    }
}

pub fn decode_kind(s: &String) -> (r: Option<OperationType>)
    ensures
        match r {
            Some(k) => s@ == kind_string(k),
            None => !is_kind_string(s@),
        },
        r is Some <==> is_kind_string(s@),
{
    if *s == "move".to_owned() {
        Some(OperationType::Move)
    } else if *s == "copy".to_owned() {
        Some(OperationType::Copy)
    } else if *s == "rename".to_owned() {
        Some(OperationType::Rename)
    } else if *s == "delete".to_owned() {
        Some(OperationType::Delete)
    } else {
        None
    }
}

pub fn encode_status(st: &OperationStatus) -> (r: String)
    ensures
        r@ == status_string(*st),
{
    match st {
        OperationStatus::Pending => "pending".to_owned(),
        OperationStatus::InProgress => "in_progress".to_owned(),
        OperationStatus::Completed => "completed".to_owned(),
        OperationStatus::Failed(m) => {
            let mut s = "failed:".to_owned();
            s.append(m.as_str());
            s
        },
        OperationStatus::Undone => "undone".to_owned(),
    }
}

pub fn decode_status(s: &String) -> (r: Option<OperationStatus>)
    ensures
        match r {
            Some(st) => status_string(st) == s@,
            None => !is_status_string(s@),
        },
        r is Some <==> is_status_string(s@),
{
    if *s == "pending".to_owned() {
        Some(OperationStatus::Pending)
    } else if *s == "in_progress".to_owned() {
        Some(OperationStatus::InProgress)
    } else if *s == "completed".to_owned() {
        Some(OperationStatus::Completed)
    } else if *s == "undone".to_owned() {
        Some(OperationStatus::Undone)
    } else {
        let n = s.as_str().unicode_len();
        if n >= 7 {
            let prefix = s.as_str().substring_char(0, 7);
            if prefix.to_owned() == "failed:".to_owned() {
                let msg = s.as_str().substring_char(7, n).to_owned();
                proof {
                    assert(s@ =~= s@.subrange(0, 7) + s@.subrange(7, s@.len() as int));
                }
                Some(OperationStatus::Failed(msg))
            } else {
                None
            }
        } else {
            None
        }
    }
}

/// Every encoded status decodes: `status_string` always lands in the set of
/// valid stored status strings.
pub proof fn lemma_status_string_valid(st: OperationStatus)
    ensures
        is_status_string(status_string(st)),
{
    match st {
        OperationStatus::Failed(m) => {
            reveal_strlit("failed:");
            assert(("failed:"@ + m@).subrange(0, 7) =~= "failed:"@);
        },
        _ => {},
    }
}

/// Every stored status string is nonempty, and its first character names the
/// variant; the five variants use five distinct first characters.
proof fn lemma_status_head(st: OperationStatus)
    ensures
        status_string(st).len() > 0,
        status_string(st)[0] == match st {
            OperationStatus::Pending => 'p',
            OperationStatus::InProgress => 'i',
            OperationStatus::Completed => 'c',
            OperationStatus::Failed(_) => 'f',
            OperationStatus::Undone => 'u',
        },
{
    reveal_strlit("pending");
    reveal_strlit("in_progress");
    reveal_strlit("completed");
    reveal_strlit("undone");
    reveal_strlit("failed:");
    match st {
        OperationStatus::Failed(m) => {
            assert(("failed:"@ + m@)[0] == "failed:"@[0]);
        },
        _ => {},
    }
}

/// The stored status form is injective up to the failure message text: two
/// statuses with the same stored string are the same status.
pub proof fn lemma_status_string_injective(a: OperationStatus, b: OperationStatus)
    requires
        status_string(a) == status_string(b),
    ensures
        status_matches(a, b),
{
    lemma_status_head(a);
    lemma_status_head(b);
    match (a, b) {
        (OperationStatus::Failed(m1), OperationStatus::Failed(m2)) => {
            reveal_strlit("failed:");
            assert(m1@ =~= ("failed:"@ + m1@).subrange(7, ("failed:"@ + m1@).len() as int));
            assert(m2@ =~= ("failed:"@ + m2@).subrange(7, ("failed:"@ + m2@).len() as int));
        },
        _ => {},
    }
}

/// Every stored kind string is nonempty, and its first character names the
/// kind; the four kinds use four distinct first characters.
proof fn lemma_kind_head(k: OperationType)
    ensures
        kind_string(k).len() > 0,
        kind_string(k)[0] == match k {
            OperationType::Move => 'm',
            OperationType::Copy => 'c',
            OperationType::Rename => 'r',
            OperationType::Delete => 'd',
        },
{
    reveal_strlit("move");
    reveal_strlit("copy");
    reveal_strlit("rename");
    reveal_strlit("delete");
}

/// The stored kind form is injective: two kinds with the same stored string
/// are equal.
pub proof fn lemma_kind_string_injective(a: OperationType, b: OperationType)
    requires
        kind_string(a) == kind_string(b),
    ensures
        a == b,
{
    lemma_kind_head(a);
    lemma_kind_head(b);
}

} // verus!
