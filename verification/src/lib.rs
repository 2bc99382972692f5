//! A minimal HTTP service core: a health check, two stub user endpoints, and a
//! closed error taxonomy mapped to status codes and JSON error bodies.
//!
//! The library is transport-free: requests are plain method and path strings,
//! responses are a status code plus a JSON object model, rendered to text by a
//! verified encoder. A thin server binary wires these to a real listener.

pub mod error;
pub mod handlers;
pub mod json;
pub mod laws;
pub mod router;
