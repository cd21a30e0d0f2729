//! The typed refusals a tool call returns to the model.

use vstd::prelude::*;

verus! {

#[allow(inconsistent_fields)]
/// Why a tool call was refused. Variants that name a file carry counts,
/// line numbers, sizes and digests — never file content.
#[derive(Debug, PartialEq)]
pub enum ToolError {
    ArgumentsNotObject,
    UnsupportedProperty,
    UnsupportedTool,
    ConnectionNotString,
    SqlNotString,
    PathNotString,
    ContentNotString,
    PatternNotString,
    CaseInsensitiveNotBool,
    OffsetNotUint,
    ChunkNotString,
    OldTextNotString,
    NewTextNotString,
    ExpectedSizeNotUint,
    ExpectedDigestNotString,
    InvalidQueryArguments,
    DataSharingDisabled,
    NoConnectionSelected,
    QueryFailed,
    QueryFailedDetail(String),
    QueryResultUnavailable,
    SchemaDiscoveryFailed(String),
    WorkspaceUnavailable,
    Workspace(String),
    WorkspaceWrite(String),
    WorkspaceWriteTooLarge { limit: usize },
    WorkspaceEdit(String),
    WorkspaceEditEmptyAnchor { path: String },
    WorkspaceEditTooLarge { path: String, limit: usize, found: usize },
    WorkspaceEditNotText { path: String },
    WorkspaceEditMoved {
        path: String,
        expected_size: Option<u64>,
        current_size: u64,
        expected_digest: Option<String>,
        current_digest: String,
    },
    WorkspaceEditNoMatch { path: String, matches: usize, size: u64, digest: String },
    WorkspaceEditAmbiguous {
        path: String,
        matches: usize,
        lines: Vec<u64>,
        size: u64,
        digest: String,
    },
    WorkspaceAppendOffset {
        path: String,
        expected_offset: u64,
        current_size: u64,
        current_digest: String,
    },
    Runner(String),
}

} // verus!
