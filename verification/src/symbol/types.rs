//! Symbol information, hover requests and the replies symbols are read from.
use vstd::prelude::*;

verus! {

/// What is known of the symbol under the cursor.
#[derive(Debug, Clone)]
pub struct SymbolInfo {
    pub qualified_name: Option<String>,
    pub kind: Option<String>,
    pub definition_uri: Option<String>,
    pub definition_line: Option<u32>,
}

/// The symbol under the cursor and the hover text shown for it.
#[derive(Debug, Clone)]
pub struct HoverOutput {
    pub symbol_info: SymbolInfo,
    pub hover_text: Option<String>,
}

/// A position in a file.
#[derive(Debug, Clone)]
pub struct CursorPosition {
    pub file: String,
    pub line: u32,
    pub character: u32,
}

/// A request for hover information at a position in a workspace.
#[derive(Debug, Clone)]
pub struct HoverRequest {
    pub root: String,
    pub file: String,
    pub line: u32,
    pub character: u32,
    pub server_path: String,
}

/// The arguments of the `copy-markdown` command.
#[derive(Debug, Clone)]
pub struct CopyMarkdownArgs {
    pub root: String,
    pub file: String,
    pub line: u32,
    pub character: u32,
    pub server_path: String,
    pub github: bool,
    pub remote: String,
}

/// The `contents` member of a hover reply, as far as symbols are read from it.
#[derive(Debug)]
pub enum HoverContents {
    /// A string.
    Text(String),
    /// An object: its `value` member where that is a string, and the whole
    /// object as JSON text.
    Object { value: Option<String>, json: String },
    /// An array of contents.
    List(Vec<HoverContents>),
    /// Any other value, as JSON text.
    Other(String),
}

/// A hover reply: its `contents` member, if it has one.
#[derive(Debug)]
pub struct HoverReply {
    pub contents: Option<HoverContents>,
}

/// The first location of a definition reply: its `uri` where that is a
/// string, and its `range.start.line` where that is an unsigned integer.
#[derive(Debug, Clone)]
pub struct DefinitionLocation {
    pub uri: Option<String>,
    pub start_line: Option<u64>,
}

/// A definition reply: its first location, where the reply is a non-empty array.
#[derive(Debug, Clone)]
pub struct DefinitionReply {
    pub first: Option<DefinitionLocation>,
}

} // verus!
