//! The failures of the subsystem.

use crate::text::{push_signed_decimal, push_text, signed_decimal_digits};
use vstd::prelude::*;
use vstd::string::*;

verus! {

/// A failure of the allocator's control channel.
#[derive(Debug, Clone, Copy, PartialEq, Eq, Structural)]
pub enum ControlError {
    /// The control point is not there: profiling support is not built in,
    /// or its name could not be resolved.
    Unavailable,
    /// A value of the wrong type was written to a control point or came
    /// back from one.
    TypeMismatch,
    /// The allocator answered with this non-zero status.
    NativeCode(i32),
    /// Reading or writing a file on behalf of the allocator failed.
    Io,
}

impl ControlError {
    /// The text of the failure.
    pub open spec fn message_spec(self) -> Seq<u8> {
        match self {
            ControlError::Unavailable => "mallctl unavailable".spec_bytes(),
            ControlError::TypeMismatch => "mallctl type mismatch".spec_bytes(),
            ControlError::NativeCode(code) => "mallctl error code: ".spec_bytes()
                + signed_decimal_digits(code as int),
            ControlError::Io => "I/O error".spec_bytes(),
        }
    }

    /// Appends the text of the failure to `out`.
    pub fn push_message(&self, out: &mut Vec<u8>)
        ensures
            final(out)@ == old(out)@ + self.message_spec(),
    {
        match self {
            ControlError::Unavailable => push_text(out, "mallctl unavailable"),
            ControlError::TypeMismatch => push_text(out, "mallctl type mismatch"),
            ControlError::NativeCode(code) => {
                push_text(out, "mallctl error code: ");
                push_signed_decimal(out, *code);
                assert(out@ =~= old(out)@ + self.message_spec());
            },
            ControlError::Io => push_text(out, "I/O error"),
        }
    }

    /// The text of the failure.
    pub fn message(&self) -> (r: Vec<u8>)
        ensures
            r@ == self.message_spec(),
    {
        let mut out: Vec<u8> = Vec::new();
        self.push_message(&mut out);
        assert(out@ =~= self.message_spec());
        out
    }
}

/// The symbol listing has a symbol line whose address field is no
/// hexadecimal number of at most 64 bits.
#[derive(Debug, Clone, Copy, PartialEq, Eq, Structural)]
pub enum SymbolParseError {
    MalformedAddress,
}

/// A failure while the chassis starts.
#[derive(Debug, Clone, Copy, PartialEq, Eq, Structural)]
pub enum InitError {
    /// The host could not set up what the chassis needs from it.
    Io,
}

/// A failure while the chassis shuts down.
#[derive(Debug, Clone, Copy, PartialEq, Eq, Structural)]
pub enum ShutdownError {
    /// The host could not release what the chassis had from it.
    Io,
}

/// A failure of the chassis as a whole.
#[derive(Debug, Clone, Copy, PartialEq, Eq, Structural)]
pub enum ChassisError {
    InitError(InitError),
}

impl ChassisError {
    /// The failure of the chassis that a failed start is.
    pub fn from_init(error: InitError) -> (r: ChassisError)
        ensures
            r == ChassisError::InitError(error),
    {
        ChassisError::InitError(error)
    }
}

} // verus!
