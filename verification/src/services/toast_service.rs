//! The queue of notifications that wait to be shown.

use crate::models::toast::{Toast, ToastKind};
use vstd::prelude::*;

verus! {

/// How long a notification stays on screen, in milliseconds.
pub const TOAST_DURATION_MS: u64 = 3000;

/// The notifications that wait to be shown, oldest first, and the identifier
/// that the next one gets.
pub struct ToastQueue {
    pub next_id: u32,
    pub pending: Vec<Toast>,
}

/// What a notification holds.
pub struct ToastRecord {
    pub id: Option<u32>,
    pub message: Seq<char>,
    pub kind: ToastKind,
    pub duration_ms: int,
}

/// What a notification holds.
pub open spec fn toast_record(toast: Toast) -> ToastRecord {
    ToastRecord {
        id: toast.id,
        message: toast.message@,
        kind: toast.kind,
        duration_ms: toast.duration_ms as int,
    }
}

/// What a list of notifications holds.
pub open spec fn toast_records(toasts: Seq<Toast>) -> Seq<ToastRecord> {
    Seq::new(toasts.len(), |i: int| toast_record(toasts[i]))
}

/// The identifier after `id`; after the greatest comes 0.
pub open spec fn spec_following_id(id: u32) -> u32 {
    if id == u32::MAX {
        0
    } else {
        (id + 1) as u32
    }
}

impl ToastQueue {
    /// An empty queue. The first notification gets the identifier 1.
    pub fn new() -> (queue: ToastQueue)
        ensures
            queue.next_id == 1,
            queue.pending@.len() == 0,
    {
        ToastQueue { next_id: 1, pending: Vec::new() }
    }
}

/// Queues a notification under the next identifier.
pub fn push_toast(queue: &mut ToastQueue, toast: Toast)
    ensures
        final(queue).next_id == spec_following_id(old(queue).next_id),
        toast_records(final(queue).pending@) == toast_records(old(queue).pending@).push(
            ToastRecord { id: Some(old(queue).next_id), ..toast_record(toast) },
        ),
{
    let ghost before = queue.pending@;
    let id = queue.next_id;
    queue.next_id = if id == u32::MAX {
        0
    } else {
        id + 1
    };
    let stamped = Toast {
        id: Some(id),
        message: toast.message,
        kind: toast.kind,
        duration_ms: toast.duration_ms,
    };
    queue.pending.push(stamped);
    assert(toast_records(queue.pending@) =~= toast_records(before).push(
        ToastRecord { id: Some(id), ..toast_record(toast) },
    ));
}

/// Queues the report of a success, to be shown for three seconds.
pub fn push_success(queue: &mut ToastQueue, message: String)
    ensures
        final(queue).next_id == spec_following_id(old(queue).next_id),
        toast_records(final(queue).pending@) == toast_records(old(queue).pending@).push(
            ToastRecord {
                id: Some(old(queue).next_id),
                message: message@,
                kind: ToastKind::Success,
                duration_ms: TOAST_DURATION_MS as int,
            },
        ),
{
    push_toast(queue, Toast::new(ToastKind::Success, message, TOAST_DURATION_MS));
}

/// Queues the report of a failure, to be shown for three seconds.
pub fn push_error(queue: &mut ToastQueue, err: String)
    ensures
        final(queue).next_id == spec_following_id(old(queue).next_id),
        toast_records(final(queue).pending@) == toast_records(old(queue).pending@).push(
            ToastRecord {
                id: Some(old(queue).next_id),
                message: err@,
                kind: ToastKind::Error,
                duration_ms: TOAST_DURATION_MS as int,
            },
        ),
{
    push_toast(queue, Toast::new(ToastKind::Error, err, TOAST_DURATION_MS));
}

/// Takes every notification that waits, oldest first. The queue is empty
/// afterwards and goes on counting where it was.
pub fn take_toast_receiver(queue: &mut ToastQueue) -> (taken: Vec<Toast>)
    ensures
        taken@ == old(queue).pending@,
        final(queue).pending@.len() == 0,
        final(queue).next_id == old(queue).next_id,
{
    let mut taken: Vec<Toast> = Vec::new();
    core::mem::swap(&mut taken, &mut queue.pending);
    taken
}

} // verus!
