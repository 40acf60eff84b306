//! The verified core of a Parquet/CSV/JSON explorer that talks to the DuckDB
//! command-line tool: the SQL it writes, the way it reads DuckDB's JSON
//! answers, the derived-column and grain rules, the folder tree and the
//! application state.
pub mod text;
pub mod json;
pub mod duck;
pub mod paths;
pub mod relation;
pub mod derive;
pub mod describe;
pub mod describe_task;
pub mod tree;
pub mod state;
pub mod display;
pub mod search;
