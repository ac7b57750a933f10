//! Where the switcher reports what happened to the user.
use vstd::prelude::*;

verus! {

/// A sink for user-facing notifications.
pub trait Notifier {
    fn notify_success(&self, message: &str);

    fn notify_error(&self, message: &str);
}

} // verus!
