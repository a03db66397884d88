//! Reading symbols out of hover and definition replies.

use jump::symbol::{DefinitionLocation, DefinitionReply, HoverContents, HoverReply, SymbolExtractor};
use jump::RustSymbolExtractor;

fn markup(value: &str) -> HoverReply {
    HoverReply {
        contents: Some(HoverContents::Object {
            value: Some(value.to_string()),
            json: format!("{{\"kind\":\"markdown\",\"value\":{:?}}}", value),
        }),
    }
}

#[test]
fn qualified_name_of_struct_declaration() {
    let extractor = RustSymbolExtractor::new();
    let hover = markup("jump::config\n\npub struct JumpConfig {");
    assert_eq!(
        extractor.extract_qualified_name(&hover),
        Some("struct jump::config::JumpConfig".to_string())
    );
}

#[test]
fn qualified_name_of_async_fn_and_generic_type() {
    let extractor = RustSymbolExtractor::new();
    let hover = markup("jump::app\n\npub async fn run(request: HoverRequest)");
    assert_eq!(extractor.extract_qualified_name(&hover), Some("fn jump::app::run".to_string()));
    let hover = markup("jump::x\n\npub type Alias<T> = Vec<T>;");
    assert_eq!(extractor.extract_qualified_name(&hover), Some("type jump::x::Alias".to_string()));
}

#[test]
fn qualified_name_of_let_binding_and_field() {
    let extractor = RustSymbolExtractor::new();
    let hover = HoverReply { contents: Some(HoverContents::Text("let  count : usize".to_string())) };
    assert_eq!(extractor.extract_qualified_name(&hover), Some("let count: usize".to_string()));
    let hover = markup("jump::config::JumpConfig\n\nmax_depth: usize");
    assert_eq!(
        extractor.extract_qualified_name(&hover),
        Some("field jump::config::JumpConfig::max_depth".to_string())
    );
}

#[test]
fn no_qualified_name_for_short_plain_text_or_other_contents() {
    let extractor = RustSymbolExtractor::new();
    assert_eq!(extractor.extract_qualified_name(&markup("just words")), None);
    let empty = HoverReply { contents: None };
    assert_eq!(extractor.extract_qualified_name(&empty), None);
    let list = HoverReply { contents: Some(HoverContents::List(vec![])) };
    assert_eq!(extractor.extract_qualified_name(&list), None);
    let no_value = HoverReply {
        contents: Some(HoverContents::Object { value: None, json: "{}".to_string() }),
    };
    assert_eq!(extractor.extract_qualified_name(&no_value), None);
}

#[test]
fn hover_text_joins_lists_and_falls_back_to_json() {
    let extractor = RustSymbolExtractor::new();
    let nested = HoverReply {
        contents: Some(HoverContents::List(vec![
            HoverContents::Text("a".to_string()),
            HoverContents::Object { value: Some("b".to_string()), json: "{\"value\":\"b\"}".to_string() },
            HoverContents::List(vec![HoverContents::Other("3".to_string()), HoverContents::Text("c".to_string())]),
            HoverContents::Object { value: None, json: "{\"x\":1}".to_string() },
        ])),
    };
    assert_eq!(extractor.extract_hover_text(&nested), Some("a\nb\n3\nc\n{\"x\":1}".to_string()));
    assert_eq!(extractor.extract_hover_text(&HoverReply { contents: None }), None);
    let empty_list = HoverReply { contents: Some(HoverContents::List(vec![])) };
    assert_eq!(extractor.extract_hover_text(&empty_list), Some(String::new()));
}

#[test]
fn symbol_info_reads_kind_and_first_definition() {
    let extractor = RustSymbolExtractor::new();
    let hover = markup("jump::config\npub struct JumpConfig {\n}");
    let definition = DefinitionReply {
        first: Some(DefinitionLocation {
            uri: Some("file:///src/config.rs".to_string()),
            start_line: Some(9),
        }),
    };
    let info = extractor.extract_symbol_info(&hover, &definition);
    assert_eq!(info.qualified_name, Some("struct jump::config::JumpConfig".to_string()));
    assert_eq!(info.kind, Some("struct".to_string()));
    assert_eq!(info.definition_uri, Some("file:///src/config.rs".to_string()));
    assert_eq!(info.definition_line, Some(10));

    let text_hover = HoverReply { contents: Some(HoverContents::Text("a\nb c".to_string())) };
    let none = DefinitionReply { first: None };
    let info = extractor.extract_symbol_info(&text_hover, &none);
    assert_eq!(info.kind, None);
    assert_eq!(info.definition_uri, None);
    assert_eq!(info.definition_line, None);
}

#[test]
fn definition_line_is_one_based_and_kept_to_32_bits() {
    assert_eq!(RustSymbolExtractor::definition_line(0), 1);
    assert_eq!(RustSymbolExtractor::definition_line(41), 42);
    assert_eq!(RustSymbolExtractor::definition_line(u32::MAX as u64), 0);
}

#[test]
fn kind_and_name_from_text() {
    let extractor = RustSymbolExtractor::new();
    assert_eq!(extractor.kind_from_text("jump\npub enum Kind"), Some("enum".to_string()));
    assert_eq!(extractor.kind_from_text("one line"), None);
    assert_eq!(
        extractor.qualified_name_from_text("a::b\n\nconst LIMIT: usize = 3;"),
        Some("const a::b::LIMIT:".to_string())
    );
}
