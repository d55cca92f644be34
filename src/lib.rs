//! View layer of a UI rendering micro-benchmark: the rendering rules for the
//! table, animation and tree workloads, a markup renderer, a template-clone
//! renderer with its template cache, and the decisions of the click handler
//! and of the harness callbacks.
pub mod bridge;
pub mod cloning;
pub mod events;
pub mod markup;
pub mod rules;
pub mod state;
pub mod template;
pub mod text;
pub mod view;
