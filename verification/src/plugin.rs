//! The stages that may rewrite a request or end its resolution.

pub mod alias;
pub mod alias_field;
pub mod exports_field;
pub mod imports_field;
pub mod main_field;
pub mod main_file;
pub mod prefer_relative;
