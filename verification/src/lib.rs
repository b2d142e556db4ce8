//! A mock-HTTP service core: declarative route patterns are compiled into
//! matchers, incoming (method, path) pairs are resolved to a service and its
//! extracted path parameters, the parameters are validated against declared
//! rules, substituted into a JSON template, and handed to a user-supplied
//! transformation script that produces the final JSON payload.
//!
//! Everything that decides or computes lives here, verified; reading service
//! definitions from disk and speaking HTTP are left to the surrounding
//! program.

pub mod api;
pub mod config;
pub mod errors;
pub mod executor;
pub mod jsontext;
pub mod naming;
pub mod params;
pub mod pattern;
pub mod pipeline;
pub mod registry;
pub mod renderer;
pub mod resolver;
pub mod text;
pub mod validator;
