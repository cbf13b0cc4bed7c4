use vstd::prelude::*;

verus! {

/// Whether a notification reports a success or a failure.
#[derive(Clone, Copy, Debug, PartialEq, Eq, Structural)]
pub enum ToastKind {
    Success,
    Error,
}

/// A short notification for the user.
///
/// `duration_ms` is how long it stays on screen, in milliseconds. `id` is set
/// when the notification is queued.
pub struct Toast {
    pub id: Option<u32>,
    pub message: String,
    pub kind: ToastKind,
    pub duration_ms: u64,
}

impl Toast {
    /// A notification that has not been queued yet.
    pub fn new(kind: ToastKind, message: String, duration_ms: u64) -> (toast: Toast)
        ensures
            toast.id is None,
            toast.message == message,
            toast.kind == kind,
            toast.duration_ms == duration_ms,
    {
        Toast { id: None, message, kind, duration_ms }
    }
}

} // verus!
