//! The machine registers that the code generator hands out.
use vstd::prelude::*;

verus! {

/// An x86-64 integer register, as the register allocator sees it.
#[derive(Debug, Clone, Copy, PartialEq, Eq, Structural)]
pub enum Rst {
    RAX,
    RDX,
    RCX,
    RDI,
    RSI,
    R8,
    R9,
    R10,
    R11,
    R12,
    R13,
    R14,
    R15,
}

impl View for Rst {
    type V = Rst;

    open spec fn view(&self) -> Rst {
        *self
    }
}

impl DeepView for Rst {
    type V = Rst;

    open spec fn deep_view(&self) -> Rst {
        *self
    }
}

/// The assembly spelling of a register.
pub open spec fn rst_chars(r: Rst) -> Seq<char> {
    match r {
        Rst::RAX => "rax"@,
        Rst::RDX => "rdx"@,
        Rst::RCX => "rcx"@,
        Rst::RDI => "rdi"@,
        Rst::RSI => "rsi"@,
        Rst::R8 => "r8"@,
        Rst::R9 => "r9"@,
        Rst::R10 => "r10"@,
        Rst::R11 => "r11"@,
        Rst::R12 => "r12"@,
        Rst::R13 => "r13"@,
        Rst::R14 => "r14"@,
        Rst::R15 => "r15"@,
    }
}

impl Rst {
    /// The register's name as it appears in the emitted assembly.
    pub fn as_str(&self) -> (r: &'static str)
        ensures
            r@ == rst_chars(*self),
    {
        match self {
            Rst::RAX => "rax",
            Rst::RDX => "rdx",
            Rst::RCX => "rcx",
            Rst::RDI => "rdi",
            Rst::RSI => "rsi",
            Rst::R8 => "r8",
            Rst::R9 => "r9",
            Rst::R10 => "r10",
            Rst::R11 => "r11",
            Rst::R12 => "r12",
            Rst::R13 => "r13",
            Rst::R14 => "r14",
            Rst::R15 => "r15",
        }
    }

    /// The register's name as an owned string.
    pub fn to_string(&self) -> (r: String)
        ensures
            r@ == rst_chars(*self),
    {
        String::from_str(self.as_str())
    }
}

} // verus!
