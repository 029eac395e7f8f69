use vstd::prelude::*;
use crate::tokens::scope::AmvmMeta;
use crate::tokens::scope::MetaModel;
use crate::tokens::scope::metas_model;

verus! {

/// What can go wrong while a program runs.
#[derive(Debug, Clone, Copy, PartialEq, Eq, Structural)]
pub enum AmvmFault {
    /// An assignment to a constant or single-assignment binding.
    ImmutableAssignment,
    /// A name that no scope in reach defines.
    UndefinedVariable,
    /// Operands of types that the operation does not take.
    TypeMismatch,
    /// A result that its integer type cannot hold.
    ArithmeticOverflow,
    /// A division by zero.
    DivisionByZero,
    /// Arithmetic on floating-point numbers, which this machine does not do.
    FloatUnsupported,
    /// A casting policy that this machine does not implement.
    CastingUnsupported,
    /// An argument whose binding is stricter than the parameter asks for.
    KindMismatch,
    /// A call of a value that is no function.
    NotCallable,
    /// A condition that is no boolean.
    ConditionNotBool,
    /// A range with a null side.
    NullNotIterable,
    /// A range whose sides have different types.
    RangeSidesDiffer,
    /// A range over values that are no numbers.
    RangeNotNumber,
    /// An iterator whose `next` is no function.
    IteratorNextNotFunction,
    /// An iterator step whose result has no boolean `done`.
    IteratorResultMalformed,
    /// A native function called without its `self`.
    SelfNotDefined,
    /// A mutable access through a binding that is not mutable.
    NotMutable,
    /// A field access on a value that is no object.
    NotAnObject,
    /// A field that the object does not have.
    PropertyNotFound,
    /// A field access with a key that is no string.
    ObjectKeyNotString,
    /// A field access on a native handle.
    NativeObject,
    /// A use of the previous result where there is none.
    NoPreviousValue,
    /// More previous results than a context holds.
    PreviousOverflow,
    /// A builtin that the machine does not know.
    UnknownBuiltin,
    /// A builtin called with too few arguments.
    MissingArgument,
    /// An argument that must be a variable and is not.
    NotAVariable,
    /// A handle that names no scope of this machine.
    BadHandle,
    /// Code to evaluate that is no string.
    CodeNotString,
    /// Code to evaluate that the front end rejects.
    FrontEnd,
    /// The machine's allowance of nested calls and loop rounds is used up.
    OutOfFuel,
    /// The machine can hold no more contexts.
    OutOfContexts,
}

impl AmvmFault {
    /// The sentence that describes the fault.
    pub fn message(&self) -> (r: &'static str)
        ensures
            r@ == runtime_message(*self),
    {
        match self {
            AmvmFault::ImmutableAssignment => "Can't assign a value to a constant variable",
            AmvmFault::UndefinedVariable => "Variable is not defined",
            AmvmFault::TypeMismatch => "Invalid operation, the types of both sides do not fit",
            AmvmFault::ArithmeticOverflow => "Attempt to calculate with overflow",
            AmvmFault::DivisionByZero => "Attempt to divide by zero",
            AmvmFault::FloatUnsupported => "Floating-point arithmetic is not available",
            AmvmFault::CastingUnsupported => "Casting policy is not available",
            AmvmFault::KindMismatch => "Cannot cast the argument to the kind of the parameter",
            AmvmFault::NotCallable => "Calling to a non-function",
            AmvmFault::ConditionNotBool => "Condition should be boolean",
            AmvmFault::NullNotIterable => "Null is not iterable",
            AmvmFault::RangeSidesDiffer => "Range should be the same type on both sides",
            AmvmFault::RangeNotNumber => "Range is only available for numbers",
            AmvmFault::IteratorNextNotFunction => "Iterator next should be a function",
            AmvmFault::IteratorResultMalformed =>
                "Iterator result should have the following structure: { done #bool value #T }",
            AmvmFault::SelfNotDefined => "self is not defined",
            AmvmFault::NotMutable => "Cannot borrow inmutable to mutable",
            AmvmFault::NotAnObject => "Cannot access to fields in non-object values",
            AmvmFault::PropertyNotFound => "Property not found",
            AmvmFault::ObjectKeyNotString => "Objects only can be accessed by a string",
            AmvmFault::NativeObject => "Can't get properties of native object",
            AmvmFault::NoPreviousValue => "No prev value",
            AmvmFault::PreviousOverflow => "Too many prev values",
            AmvmFault::UnknownBuiltin => "Unknown builtin",
            AmvmFault::MissingArgument => "Missing argument",
            AmvmFault::NotAVariable => "Argument should be a variable",
            AmvmFault::BadHandle => "Should be object",
            AmvmFault::CodeNotString => "Code should be String",
            AmvmFault::FrontEnd => "Code cannot be parsed",
            AmvmFault::OutOfFuel => "Out of fuel",
            AmvmFault::OutOfContexts => "Out of contexts",
        }
    }
}

/// The sentence that describes a fault.
pub open spec fn runtime_message(f: AmvmFault) -> Seq<char> {
    match f {
        AmvmFault::ImmutableAssignment => "Can't assign a value to a constant variable"@,
        AmvmFault::UndefinedVariable => "Variable is not defined"@,
        AmvmFault::TypeMismatch => "Invalid operation, the types of both sides do not fit"@,
        AmvmFault::ArithmeticOverflow => "Attempt to calculate with overflow"@,
        AmvmFault::DivisionByZero => "Attempt to divide by zero"@,
        AmvmFault::FloatUnsupported => "Floating-point arithmetic is not available"@,
        AmvmFault::CastingUnsupported => "Casting policy is not available"@,
        AmvmFault::KindMismatch => "Cannot cast the argument to the kind of the parameter"@,
        AmvmFault::NotCallable => "Calling to a non-function"@,
        AmvmFault::ConditionNotBool => "Condition should be boolean"@,
        AmvmFault::NullNotIterable => "Null is not iterable"@,
        AmvmFault::RangeSidesDiffer => "Range should be the same type on both sides"@,
        AmvmFault::RangeNotNumber => "Range is only available for numbers"@,
        AmvmFault::IteratorNextNotFunction => "Iterator next should be a function"@,
        AmvmFault::IteratorResultMalformed =>
            "Iterator result should have the following structure: { done #bool value #T }"@,
        AmvmFault::SelfNotDefined => "self is not defined"@,
        AmvmFault::NotMutable => "Cannot borrow inmutable to mutable"@,
        AmvmFault::NotAnObject => "Cannot access to fields in non-object values"@,
        AmvmFault::PropertyNotFound => "Property not found"@,
        AmvmFault::ObjectKeyNotString => "Objects only can be accessed by a string"@,
        AmvmFault::NativeObject => "Can't get properties of native object"@,
        AmvmFault::NoPreviousValue => "No prev value"@,
        AmvmFault::PreviousOverflow => "Too many prev values"@,
        AmvmFault::UnknownBuiltin => "Unknown builtin"@,
        AmvmFault::MissingArgument => "Missing argument"@,
        AmvmFault::NotAVariable => "Argument should be a variable"@,
        AmvmFault::BadHandle => "Should be object"@,
        AmvmFault::CodeNotString => "Code should be String"@,
        AmvmFault::FrontEnd => "Code cannot be parsed"@,
        AmvmFault::OutOfFuel => "Out of fuel"@,
        AmvmFault::OutOfContexts => "Out of contexts"@,
    }
}

/// An error of a running program: the source positions that led to it,
/// innermost first, and the fault.
#[derive(Debug, PartialEq)]
pub enum AmvmError {
    Other(Vec<AmvmMeta>, AmvmFault),
}

/// An error as the contracts speak of it.
pub ghost struct ErrorModel {
    pub fault: AmvmFault,
    pub trace: Seq<MetaModel>,
}

impl View for AmvmError {
    type V = ErrorModel;

    open spec fn view(&self) -> ErrorModel {
        match self {
            AmvmError::Other(trace, fault) => ErrorModel { fault: *fault, trace: metas_model(trace@) },
        }
    }
}

impl AmvmError {
    /// The fault of the error.
    pub fn fault(&self) -> (r: AmvmFault)
        ensures
            r == self@.fault,
    {
        match self {
            AmvmError::Other(_, fault) => *fault,
        }
    }
}

} // verus!
