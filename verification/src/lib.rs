//! A cache of the academic papers of an Obsidian vault: reading the notes
//! (frontmatter and bibliography table), deciding what a build stores and
//! counts, the SQL of filter queries, and the text of every output format.
pub mod text;
pub mod num;
pub mod unicode;
pub mod bibliography;
pub mod models;
pub mod parser;
pub mod query;
pub mod report;
pub mod refresh;
pub mod output;
pub mod cli;
pub mod scanner;
pub mod similarity;
