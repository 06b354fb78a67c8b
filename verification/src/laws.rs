//! What the operations are for: relations between their inputs and results that hold
//! whatever the world looks like.
pub mod advice;
pub mod answers;
pub mod commands;
pub mod devices;
pub mod directives;
pub mod drafts;
pub mod events;
pub mod layouts;
pub mod library;
pub mod machine;
pub mod matrix;
pub mod policy;
pub mod prints;
pub mod reports;
pub mod routing;
pub mod selection;
pub mod settings;
pub mod signals;
pub mod states;
pub mod telling;
pub mod texts;
