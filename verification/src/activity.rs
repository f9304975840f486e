//! The fixed replies of the activity's native methods.
use vstd::prelude::*;

verus! {

/// The message that the activity shows once it has been created.
pub const ON_CREATE_MESSAGE: &'static str = "Hello from Rust native onCreate!";

/// The message that the activity asks for with `nativeGetMessage`.
pub const NATIVE_MESSAGE: &'static str = "Message from Rust!";

/// The reply to the driver once every test has run: the empty string.
pub const COMPLETION_REPLY: &'static str = "";

/// Twice `value`, the reply of `nativeProcessData`.
pub fn process_data(value: i32) -> (doubled: i32)
    requires
        i32::MIN <= 2 * value <= i32::MAX,
    ensures
        doubled == 2 * value,
{
    value * 2
}

} // verus!
