use vstd::prelude::*;

verus! {

/// The platform layer (interrupts, timers, scheduling) that the stack runs on.
pub struct Platform;

impl Platform {
    /// Reads a status code returned by a platform routine: 0 is success,
    /// any other value is the error code.
    pub fn status(code: i32) -> (r: Result<(), i32>)
        ensures
            code == 0 ==> r == Ok::<(), i32>(()),
            code != 0 ==> r == Err::<(), i32>(code),
    {
        if code == 0 {
            Ok(())
        } else {
            Err(code)
        }
    }
}

} // verus!
