//! What stops a thread of the virtual machine.
use vstd::prelude::*;

use crate::text::copy_chars;

verus! {

/// A failure of the running program or of the machine that runs it.
#[derive(Clone, Copy, PartialEq, Eq, Structural, Debug)]
pub enum Fault {
    /// an instruction needed more operands than the stack held
    StackUnderflow,
    /// a local variable index past the frame's locals
    LocalOutOfRange,
    /// the program counter left the method's code
    PcOutOfRange,
    /// the running method has no bytecode
    NoBytecode,
    /// an integer division or remainder by zero
    DivideByZero,
    /// an integer operation whose result does not fit its type
    Overflow,
    /// no method of that class, name and descriptor is loaded
    MethodNotFound,
    /// no static field of that name in the class
    StaticNotFound,
    /// a field or static index past the object's or class's words
    FieldOutOfRange,
    /// a reference that is null or names no live object
    NullPointer,
    /// an object without the shape that the instruction needs
    WrongObjectKind,
    /// an array index past the array's length
    IndexOutOfBounds,
    /// a `checkcast` whose object is not of the class named
    FailedCast,
    /// a return from the outermost frame with a value, or with no frame to return to
    NoCaller,
    /// an exception that no handler of any frame caught
    UncaughtException,
    /// an instruction this machine does not run
    Unsupported,
    /// a reference count that would drop below zero
    RefCountUnderflow,
    /// a multi-dimensional array with no dimensions, or an element type that is no array
    BadArrayShape,
    /// following superclasses comes back to a class already passed
    CyclicHierarchy,
    /// a number that is no character's code point, or text that is no number
    BadText,
    /// a native method that the machine declares but does not provide
    Unimplemented,
}

/// Why a thread stopped.
#[derive(Debug)]
pub enum Error {
    /// the thread returned from its outermost method
    ThreadKill,
    /// a class of this name is not loaded
    ClassResolution(Vec<char>),
    /// any other failure
    Misc(Fault),
}

/// The mathematical value of an `Error`.
pub enum ErrorView {
    ThreadKill,
    ClassResolution(Seq<char>),
    Misc(Fault),
}

impl View for Error {
    type V = ErrorView;

    open spec fn view(&self) -> ErrorView {
        match self {
            Error::ThreadKill => ErrorView::ThreadKill,
            Error::ClassResolution(c) => ErrorView::ClassResolution(c@),
            Error::Misc(f) => ErrorView::Misc(*f),
        }
    }
}

impl Error {
    /// The error for a class that is not loaded.
    pub fn class_resolution(class: &Vec<char>) -> (r: Error)
        ensures
            r@ == ErrorView::ClassResolution(class@),
    {
        Error::ClassResolution(copy_chars(class))
    }
}

impl From<Fault> for Error {
    fn from(value: Fault) -> (r: Error) {
        Error::Misc(value)
    }
}

impl vstd::std_specs::convert::FromSpecImpl<Fault> for Error {
    open spec fn obeys_from_spec() -> bool {
        true
    }

    open spec fn from_spec(v: Fault) -> Error {
        Error::Misc(v)
    }
}

} // verus!
