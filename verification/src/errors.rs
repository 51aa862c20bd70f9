//! The boundary between internal failures and the messages a user sees.

use vstd::prelude::*;

verus! {

/// The text shown for a failure: the stable message, followed by the
/// internal detail only when `include_detail` is set.
pub open spec fn user_message(message: Seq<char>, detail: Seq<char>, include_detail: bool) -> Seq<char> {
    if include_detail {
        message + ": "@ + detail
    } else {
        message
    }
}

/// Renders a failure for the client; release builds pass `include_detail`
/// false so that no library or system diagnostic reaches the user.
pub fn render_user_error(message: &str, detail: &str, include_detail: bool) -> (r: String)
    ensures
        r@ == user_message(message@, detail@, include_detail),
{
    let mut r = message.to_owned();
    if include_detail {
        r.append(": ");
        r.append(detail);
    }
    r
}

/// Converts an internal failure, given by its text `error`, into what a
/// command returns to the client; callers pass `include_detail` for debug
/// builds, where the detail helps local development.
pub fn user_error(error: &str, message: &str, include_detail: bool) -> (r: String)
    ensures
        r@ == user_message(message@, error@, include_detail),
{
    render_user_error(message, error, include_detail)
}

} // verus!
