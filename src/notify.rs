//! The text of the notifications shown to the user.
use vstd::prelude::*;

verus! {

/// The text shown for an error: `msg` after a marker.
pub fn err_msg_box(msg: &str) -> (r: String)
    ensures
        r@ == "\u{1F915} "@ + msg@,
{
    String::from_str("\u{1F915} ").concat(msg)
}

/// The text shown for a diagnostic: `msg` after `debug: `.
pub fn dbg_msg_box(msg: &str) -> (r: String)
    ensures
        r@ == "debug: "@ + msg@,
{
    String::from_str("debug: ").concat(msg)
}

} // verus!
