//! Fact extraction and summarisation for Anchor programs.
pub mod std_text;
pub mod text;
pub mod seqs;
pub mod types;
pub mod aggregate;
pub mod syntax;
pub mod flow_extractor;
pub mod rust_parser;
pub mod merger;
pub mod idl;
pub mod summary;
pub mod output;
pub mod report;
pub mod workspace;
pub mod laws;
pub mod file_laws;
pub mod tag_laws;
pub mod name_laws;
pub mod behaviour_laws;
