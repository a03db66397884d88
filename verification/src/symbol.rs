//! Symbols read out of language-server replies.
pub mod extractor;
pub mod types;

pub use extractor::{RustSymbolExtractor, SymbolExtractor};
pub use types::{
    CopyMarkdownArgs, CursorPosition, DefinitionLocation, DefinitionReply, HoverContents, HoverOutput,
    HoverReply, HoverRequest, SymbolInfo,
};
