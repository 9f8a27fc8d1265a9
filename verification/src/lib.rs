use vstd::prelude::*;

pub mod artifact;
pub mod binary;
pub mod classify;
pub mod csv;
pub mod csv_event;
pub mod datetime;
pub mod decode;
pub mod detect;
pub mod ese;
pub mod events;
pub mod evtx_record;
pub mod external;
pub mod laws;
pub mod lnk;
pub mod lnk_meta;
pub mod extract;
pub mod filezilla;
pub mod json;
pub mod mft;
pub mod mft_report;
pub mod mft_select;
pub mod network;
pub mod onedrive;
pub mod order;
pub mod paths;
pub mod prefetch;
pub mod registry;
pub mod route;
pub mod row;
pub mod scca;
pub mod semantics;
pub mod signals;
pub mod strings;
pub mod task;
pub mod text;
pub mod textlog;
pub mod usn;
pub mod xml;

verus! {

/// Why an artifact could not be parsed.
#[derive(Debug)]
pub enum ParserError {
    Unsupported(String),
    Failed(String),
}

/// Who parsed an artifact, and under which configuration.
#[derive(Debug, Clone, PartialEq, Eq)]
pub struct ParserMetadata {
    pub parser_name: String,
    pub parser_version: String,
    pub parser_config_hash: String,
    pub schema_version: String,
}

/// One piece of evidence handed to a parser: where it came from, what it was
/// declared to be, and its bytes.
#[derive(Debug, Clone)]
pub struct ParserInput {
    pub case_id: String,
    pub source_file_id: String,
    pub object_ref: String,
    pub original_path: String,
    pub artifact_type: String,
    pub parse_run_id: String,
    pub bytes: Vec<u8>,
}

/// A line-oriented parser for plain text logs.
#[derive(Debug, Default)]
pub struct FakeParser;

/// The parser that recognises forensic artifacts by path, declared type and content.
#[derive(Debug, Default)]
pub struct StructuredArtifactParser;

} // verus!
