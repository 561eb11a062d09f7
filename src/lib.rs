//! Hypermedia web toolkit: a markup parser and escaping renderer, path
//! templates with reverse URLs, a route registry and an HTMX action builder.

pub mod text;
pub mod escape;
pub mod hateoas;
pub mod path;
pub mod page;
pub mod markup;
pub mod render;
pub mod laws;
pub mod parser;
pub mod grammar;
pub mod errors;
pub mod response;
pub mod registry;
pub mod config;
pub mod capability;
pub mod tw;
pub mod schema;
