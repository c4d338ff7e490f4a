use vstd::prelude::*;

verus! {

/// A fault raised while loading or executing a program.
#[derive(Debug, PartialEq, Eq, Structural, Clone, Copy)]
pub enum CPUError {
    /// The program does not fit in the memory above the reserved region.
    MemoryOverflow,
    /// A call was made with every stack slot in use.
    StackOverflow,
    /// A return was made with an empty stack.
    StackUnderflow,
    /// The word does not encode any instruction.
    InvalidOpcode(u16),
    /// A fetch, read or write outside the memory window that the access may use.
    InvalidAddress(u16),
    /// A general-purpose register index of 16 or more.
    InvalidVRegister(u8),
    /// A key index of 16 or more.
    InvalidKey(usize),
    /// A digit-glyph lookup for a value above 0xF.
    InvalidDigit(u8),
}

/// Relies on std::io::Error only as an opaque value that is carried, never read.
#[verifier::external_type_specification]
#[verifier::external_body]
pub struct ExIoError(std::io::Error);

/// A failure of the interpreter as a whole: reading the program, running it,
/// or the host system around it.
#[derive(Debug)]
pub enum Error {
    IOError(std::io::Error),
    RuntimeError(CPUError),
    SystemError(String),
}

impl From<CPUError> for Error {
    fn from(err: CPUError) -> (r: Error)
        ensures
            r == Error::RuntimeError(err),
    {
        Error::RuntimeError(err)
    }
}

impl vstd::std_specs::convert::FromSpecImpl<CPUError> for Error {
    open spec fn obeys_from_spec() -> bool {
        true
    }

    open spec fn from_spec(v: CPUError) -> Error {
        Error::RuntimeError(v)
    }
}

impl From<std::io::Error> for Error {
    fn from(err: std::io::Error) -> (r: Error)
        ensures
            r == Error::IOError(err),
    {
        Error::IOError(err)
    }
}

impl vstd::std_specs::convert::FromSpecImpl<std::io::Error> for Error {
    open spec fn obeys_from_spec() -> bool {
        true
    }

    open spec fn from_spec(v: std::io::Error) -> Error {
        Error::IOError(v)
    }
}

} // verus!
