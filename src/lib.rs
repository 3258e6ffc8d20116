//! Persistence rules of a spreadsheet-like workspace: a data file of rows and
//! its schema file, kept consistent on every save and watched for outside edits.
pub mod path;
pub mod json;
pub mod rows;
pub mod schema;
pub mod workspace;
pub mod watch;
pub mod save;
