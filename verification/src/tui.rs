//! The setup form's model: editable fields, focus, keys, mouse and what
//! the form asks the caller to do.
pub mod input;
pub mod status;
pub mod form;
pub mod app;
