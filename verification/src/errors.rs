//! The error taxonomy of the service core, and its mapping to HTTP response
//! categories.

use vstd::prelude::*;

verus! {

/// A parameter failed validation against its declared rule.
#[derive(Debug)]
pub enum ValidationError {
    /// The named parameter is required but was not captured from the path.
    MissingParameter(String),
    /// The named parameter's value does not match the rule's regex constraint.
    PatternMismatch(String),
    /// The named parameter's value does not have the declared type.
    InvalidType(String),
}

/// Everything that can go wrong while resolving a request; each variant is
/// recoverable per request and maps to one HTTP response category.
#[derive(Debug)]
pub enum MockError {
    /// No matching route, service or stored document.
    NotFound(String),
    /// Malformed input: bad JSON, an unsupported method, a rule whose regex
    /// constraint cannot be compiled.
    InvalidInput(String),
    /// A parameter was missing, mismatched or of the wrong type.
    Validation(ValidationError),
    /// Strict template substitution failed, or its output was not JSON.
    Template(String),
    /// The transformer script was missing its entry point, threw, or returned
    /// a value that is not JSON.
    Execution(String),
    /// A filesystem failure unrelated to the request's input.
    Io(String),
}

impl ValidationError {
    /// The name of the parameter the error is about.
    pub fn param_name(&self) -> (r: &String)
        ensures
            self matches ValidationError::MissingParameter(n) ==> r@ == n@,
            self matches ValidationError::PatternMismatch(n) ==> r@ == n@,
            self matches ValidationError::InvalidType(n) ==> r@ == n@,
    {
        match self {
            ValidationError::MissingParameter(n) => n,
            ValidationError::PatternMismatch(n) => n,
            ValidationError::InvalidType(n) => n,
        }
    }

    /// What `message` returns, variant by variant.
    pub open spec fn spec_message(&self) -> Seq<char> {
        match self {
            ValidationError::MissingParameter(n) => "Required parameter is missing: "@ + n@,
            ValidationError::PatternMismatch(n) => "Parameter value does not match its pattern: "@
                + n@,
            ValidationError::InvalidType(n) => "Parameter value has the wrong type: "@ + n@,
        }
    }

    /// A human-readable description.
    pub fn message(&self) -> (r: String)
        ensures
            r@ == self.spec_message(),
    {
        match self {
            ValidationError::MissingParameter(n) => String::from_str(
                "Required parameter is missing: ",
            ).concat(n.as_str()),
            ValidationError::PatternMismatch(n) => String::from_str(
                "Parameter value does not match its pattern: ",
            ).concat(n.as_str()),
            ValidationError::InvalidType(n) => String::from_str(
                "Parameter value has the wrong type: ",
            ).concat(n.as_str()),
        }
    }
}

impl MockError {
    /// The HTTP status this error maps to: not-found is 404; bad input,
    /// validation and template failures are 400; execution and I/O failures
    /// are 500.
    pub fn status(&self) -> (r: u16)
        ensures
            r == self.spec_status(),
    {
        match self {
            MockError::NotFound(_) => 404,
            MockError::InvalidInput(_) => 400,
            MockError::Validation(_) => 400,
            MockError::Template(_) => 400,
            MockError::Execution(_) => 500,
            MockError::Io(_) => 500,
        }
    }

    /// The response category of each error variant.
    pub open spec fn spec_status(&self) -> u16 {
        match self {
            MockError::NotFound(_) => 404,
            MockError::InvalidInput(_) => 400,
            MockError::Validation(_) => 400,
            MockError::Template(_) => 400,
            MockError::Execution(_) => 500,
            MockError::Io(_) => 500,
        }
    }

    /// What `message` returns, variant by variant.
    pub open spec fn spec_message_text(&self) -> Seq<char> {
        match self {
            MockError::NotFound(m) => "Not found: "@ + m@,
            MockError::InvalidInput(m) => "Invalid input: "@ + m@,
            MockError::Validation(v) => v.spec_message(),
            MockError::Template(m) => "Template error: "@ + m@,
            MockError::Execution(m) => "Execution error: "@ + m@,
            MockError::Io(m) => "IO error: "@ + m@,
        }
    }

    /// A human-readable description.
    pub fn message(&self) -> (r: String)
        ensures
            r@ == self.spec_message_text(),
    {
        match self {
            MockError::NotFound(m) => String::from_str("Not found: ").concat(m.as_str()),
            MockError::InvalidInput(m) => String::from_str("Invalid input: ").concat(m.as_str()),
            MockError::Validation(v) => v.message(),
            MockError::Template(m) => String::from_str("Template error: ").concat(m.as_str()),
            MockError::Execution(m) => String::from_str("Execution error: ").concat(m.as_str()),
            MockError::Io(m) => String::from_str("IO error: ").concat(m.as_str()),
        }
    }
}

} // verus!
