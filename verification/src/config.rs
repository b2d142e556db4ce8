//! Declarative route and parameter configuration, as read from a dynamic
//! service's route-specification document.

use vstd::prelude::*;

verus! {

/// The declared rule for one path parameter.
pub struct ParamConfig {
    /// Type tag: "string", "number" or "date"; unknown tags are accepted.
    pub param_type: String,
    /// Optional regex constraint the value must match.
    pub pattern: Option<String>,
    /// Whether the parameter must be present; absent means required.
    pub required: Option<bool>,
    /// Advisory default value; not consulted by validation.
    pub default: Option<String>,
    /// Human-readable description.
    pub description: Option<String>,
}

/// The route specification of a dynamic service.
pub struct RouteConfig {
    /// The declarative path pattern, e.g. `/orders/{id}/{date}`.
    pub pattern: String,
    /// The HTTP method the route answers, matched case-insensitively.
    pub method: String,
    /// Rules for the declared parameters, keyed by parameter name.
    pub params: Vec<(String, ParamConfig)>,
    /// Advisory cache lifetime in seconds.
    pub cache_ttl: Option<u64>,
    /// Human-readable description.
    pub description: Option<String>,
}

/// A parameter is required unless its rule says otherwise.
pub open spec fn required_of(c: ParamConfig) -> bool {
    match c.required {
        Some(b) => b,
        None => true,
    }
}

impl ParamConfig {
    /// Whether this rule makes its parameter mandatory.
    pub fn is_required(&self) -> (r: bool)
        ensures
            r == required_of(*self),
    {
        match &self.required {
            Some(b) => *b,
            None => true,
        }
    }
}

} // verus!
