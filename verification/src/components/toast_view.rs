use crate::models::toast::Toast;
use vstd::prelude::*;

verus! {

/// A notification on screen.
pub struct ToastView {
    pub toast: Toast,
}

impl ToastView {
    /// The view of a notification.
    pub fn new(toast: Toast) -> (view: ToastView)
        ensures
            view.toast == toast,
    {
        ToastView { toast }
    }
}

} // verus!
