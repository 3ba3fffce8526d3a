//! A web-fetch tool: turns a URL into a file under `.tempwebfetch/`,
//! with every decision of a fetch stated and proved.
pub mod text;
pub mod filename;
pub mod safename;
pub mod error;
pub mod status;
pub mod laws;
pub mod guarantees;
pub mod fetch;
