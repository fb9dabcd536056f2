//! Building HTTP requests from an API description: the description's model,
//! resolution and rendering of its schemas, collection of parameter values,
//! and assembly of the request path.
pub mod collect;
pub mod laws;
pub mod listing;
pub mod model;
pub mod request;
pub mod text;
pub mod value;
