//! The syscall numbers that the generated assembly loads into `rax`.
use vstd::prelude::*;

verus! {

/// A syscall the emitted code can issue, spelled as the immediate the
/// assembly loads.
#[derive(Debug, Clone, Copy, PartialEq, Eq, Structural)]
#[allow(non_camel_case_types)]
pub enum SYSCALL {
    WRITE,
    EXIT,
}

/// The immediate operand text of a syscall number.
pub open spec fn syscall_chars(s: SYSCALL) -> Seq<char> {
    match s {
        SYSCALL::WRITE => "0x2000004"@,
        SYSCALL::EXIT => "0x2000001"@,
    }
}

impl SYSCALL {
    /// The syscall number as the immediate the assembly text carries.
    pub fn to_string(&self) -> (r: String)
        ensures
            r@ == syscall_chars(*self),
    {
        match self {
            SYSCALL::WRITE => String::from_str("0x2000004"),
            SYSCALL::EXIT => String::from_str("0x2000001"),
        }
    }
}

} // verus!
