//! Power control codes of the test device: how an exit reason becomes the
//! 32-bit value the board expects.  Writing the value is the embedder's.

use vstd::prelude::*;

verus! {

/// Marker the test device requires in a nonzero exit code.
pub const NON_ZERO_FLAG: u32 = 0x3333;

/// The code for a clean shutdown.
pub const SUCCESS_CODE: u32 = 0x5555;

/// The code for a reboot.
pub const REBOOT_CODE: u32 = 0x7777;

/// The device value carrying an arbitrary exit code.
pub fn to_exit_code(code: u32) -> (r: u32)
    ensures
        r == (code << 16) | NON_ZERO_FLAG,
{
    (code << 16) | NON_ZERO_FLAG
}

/// How the machine should go down.
#[derive(Clone, Copy, PartialEq, Eq, Structural, Debug)]
pub enum ExitType {
    Success,
    Failure,
    Reboot,
    Other(u32),
}

impl ExitType {
    /// Decode a device value into an exit reason.
    pub fn from_code(code: u32) -> (r: ExitType)
        ensures
            code == REBOOT_CODE ==> r is Reboot,
            code == SUCCESS_CODE ==> r is Success,
    {
        if code == REBOOT_CODE {
            ExitType::Reboot
        } else if code == SUCCESS_CODE {
            ExitType::Success
        } else if code == ((1u32 << 16) | NON_ZERO_FLAG) {
            ExitType::Failure
        } else {
            ExitType::Other(to_exit_code(code))
        }
    }

    /// The device value of this exit reason.
    pub fn into_code(self) -> (r: u32)
        ensures
            self is Reboot ==> r == REBOOT_CODE,
            self is Success ==> r == SUCCESS_CODE,
            self is Failure ==> r == (1u32 << 16) | NON_ZERO_FLAG,
            self matches ExitType::Other(code) ==> r == (code << 16) | NON_ZERO_FLAG,
    {
        match self {
            ExitType::Reboot => REBOOT_CODE,
            ExitType::Success => SUCCESS_CODE,
            ExitType::Failure => to_exit_code(1),
            ExitType::Other(code) => to_exit_code(code),
        }
    }
}

} // verus!
