use vstd::prelude::*;

verus! {

/// Names the fixed tree shape that was expected and not found.
#[derive(Clone, Copy, Debug, PartialEq, Eq, Structural)]
pub enum Mismatch {
    /// A positional navigation path failed at the step with this index.
    Step(usize),
    /// The manifest module does not end in the expected top-level call.
    MissingCall,
    /// The callee of the manifest module's call is not a function literal.
    NonFunctionCallee,
    /// An argument of the manifest module's call is not a quoted string, or
    /// has no parameter to pair with.
    ArgumentShape,
    /// The manifest function's body does not start with a return statement.
    MissingReturn,
    /// The manifest function returns something other than an object literal.
    NonObjectReturn,
    /// The operations list ended without the closing sentinel element.
    MissingSentinel,
    /// The introspection-types property does not hold an array.
    MissingTypesArray,
    /// An operations-list element does not hold its document literal at the
    /// expected position.
    OperationShape,
}

/// The error taxonomy of the extraction pipeline. The first failure aborts
/// the run; no partial output is produced.
#[derive(Clone, Copy, Debug, PartialEq, Eq, Structural)]
pub enum Error {
    /// A lookup key or id was absent.
    NotFound,
    /// A textual scan ran past the end of its input.
    ParseError,
    /// An expected tree shape or position was absent.
    StructuralMismatch(Mismatch),
    /// A literal-level invariant was violated, such as a missing `kind`.
    UnexpectedShape,
    /// The type-wrapper invariants were violated, such as a wrapper without
    /// an `ofType`, or nesting past the depth cap.
    MalformedType,
}

} // verus!
