//! Reading symbol names out of rust-analyzer hover text.
use vstd::prelude::*;

use crate::text::{
    find, is_ws, lemma_find_char, lemma_find_char_absent, lemma_lines_cons, lemma_split_on_without_sep, lemma_trim_ws_id, lemma_words_single,
    lemma_words_space, strip_cr, before_first, before_first_exec, chars_eq, chars_of, concat, contains, contains_exec,
    has_prefix, lines, lines_exec, split_once, split_once_exec, starts_with, string_of,
    strip_prefix, strip_prefix_exec, trim, trim_end_by, trim_end_set, trim_ws, views, words,
    words_exec,
};

use super::types::{DefinitionReply, HoverContents, HoverReply, SymbolInfo};

verus! {

/// The kind and name that a declaration line starts with, such as
/// `struct Foo {` or `async fn run(`; functions report the kind `fn`.
pub open spec fn kind_and_name(line: Seq<char>) -> Option<(Seq<char>, Seq<char>)> {
    let parts = words(line);
    if parts.len() < 2 {
        None
    } else {
        let kind = parts[0];
        if kind == "struct"@ || kind == "enum"@ || kind == "trait"@ || kind == "const"@ || kind
            == "static"@ {
            Some((kind, trim_end_by(parts[1], seq!['{', ';', '<'])))
        } else if kind == "type"@ {
            Some(
                (
                    kind,
                    if contains(parts[1], seq!['<']) {
                        before_first(parts[1], seq!['<'])
                    } else {
                        trim_end_by(parts[1], seq!['{', ';'])
                    },
                ),
            )
        } else if kind == "fn"@ || kind == "async"@ {
            let idx: int = if kind == "async"@ && parts[1] == "fn"@ {
                2
            } else {
                1
            };
            if idx < parts.len() {
                Some(("fn"@, before_first(before_first(parts[idx], seq!['(']), seq!['<'])))
            } else {
                None
            }
        } else {
            None
        }
    }
}

/// The name and type of a `let name: Type` line.
pub open spec fn let_binding(line: Seq<char>) -> Option<(Seq<char>, Seq<char>)> {
    match strip_prefix(trim_ws(line), "let "@) {
        None => None,
        Some(rest) => match split_once(rest, seq![':']) {
            None => None,
            Some((n, t)) => {
                let name = trim_ws(n);
                let ty = trim_ws(t);
                if name.len() > 0 && !contains(name, seq![' ']) && ty.len() > 0 {
                    Some((name, ty))
                } else {
                    None
                }
            },
        },
    }
}

/// The field name of a `name: Type` line that is not a function.
pub open spec fn field_name(line: Seq<char>) -> Option<Seq<char>> {
    let trimmed = trim_ws(line);
    if contains(trimmed, seq![':']) && !has_prefix(trimmed, "fn "@) && !has_prefix(
        trimmed,
        "pub fn "@,
    ) {
        let name = trim_ws(before_first(trimmed, seq![':']));
        if name.len() > 0 && !contains(name, seq![' ']) {
            Some(name)
        } else {
            None
        }
    } else {
        None
    }
}

/// `kind module::name`.
pub open spec fn qualified(kind: Seq<char>, prefix_path: Seq<char>, name: Seq<char>) -> Seq<char> {
    kind + seq![' '] + prefix_path + "::"@ + name
}

/// What line `idx` of the hover text says, if anything: a public or later
/// declaration, or a field on a later line.
pub open spec fn line_symbol(line: Seq<char>, idx: int, prefix_path: Seq<char>) -> Option<Seq<char>> {
    let trimmed = trim_ws(line);
    match strip_prefix(trimmed, "pub "@) {
        Some(rest) => match kind_and_name(rest) {
            Some((kind, name)) => Some(qualified(kind, prefix_path, name)),
            None => None,
        },
        None => match kind_and_name(trimmed) {
            Some((kind, name)) => if idx > 0 {
                Some(qualified(kind, prefix_path, name))
            } else {
                None
            },
            None => if idx > 0 {
                match field_name(trimmed) {
                    Some(f) => Some("field "@ + prefix_path + "::"@ + f),
                    None => None,
                }
            } else {
                None
            },
        },
    }
}

/// The first symbol named by line `i` or a later one.
pub open spec fn first_symbol_from(ls: Seq<Seq<char>>, prefix_path: Seq<char>, i: int) -> Option<Seq<char>>
    decreases ls.len() - i,
{
    if i < 0 || i >= ls.len() {
        None
    } else if line_symbol(ls[i], i, prefix_path) is Some {
        line_symbol(ls[i], i, prefix_path)
    } else {
        first_symbol_from(ls, prefix_path, i + 1)
    }
}

/// The qualified name in hover text: a `let` binding on the first line, or
/// else, when the first line is a module path (or the text is long enough),
/// the first declaration or field below it, qualified by that path.
pub open spec fn qualified_name(text: Seq<char>) -> Option<Seq<char>> {
    let ls = lines(text);
    if ls.len() == 0 {
        None
    } else {
        let first = trim_ws(ls[0]);
        match let_binding(first) {
            Some((name, ty)) => Some("let "@ + name + ": "@ + ty),
            None => if !contains(first, "::"@) && ls.len() < 3 {
                None
            } else {
                first_symbol_from(ls, first, 0)
            },
        }
    }
}

/// The second word of the second line of hover text.
pub open spec fn hover_kind(text: Seq<char>) -> Option<Seq<char>> {
    let ls = lines(text);
    if ls.len() >= 2 && words(ls[1]).len() >= 2 {
        Some(words(ls[1])[1])
    } else {
        None
    }
}

/// Extracts symbol information from rust-analyzer hover text.
#[derive(Default)]
pub struct RustSymbolExtractor;

impl RustSymbolExtractor {
    /// An extractor.
    pub fn new() -> Self {
        RustSymbolExtractor
    }

    fn is_one_of_plain_kinds(kind: &[char]) -> (r: bool)
        ensures
            r == (kind@ == "struct"@ || kind@ == "enum"@ || kind@ == "trait"@ || kind@ == "const"@
                || kind@ == "static"@),
    {
        chars_eq(kind, &chars_of("struct")) || chars_eq(kind, &chars_of("enum")) || chars_eq(
            kind,
            &chars_of("trait"),
        ) || chars_eq(kind, &chars_of("const")) || chars_eq(kind, &chars_of("static"))
    }

    fn extract_kind_and_name(&self, line: &[char]) -> (r: Option<(Vec<char>, Vec<char>)>)
        ensures
            match r {
                Some((k, n)) => kind_and_name(line@) == Some((k@, n@)),
                None => kind_and_name(line@) is None,
            },
    {
        let parts = words_exec(line);
        let ghost pv = views(parts@);
        if parts.len() < 2 {
            return None;
        }
        let kind = parts[0].as_slice();
        assert(kind@ == pv[0]);
        assert(parts[1]@ == pv[1]);
        if Self::is_one_of_plain_kinds(kind) {
            let set = vec!['{', ';', '<'];
            assert(set@ =~= seq!['{', ';', '<']);
            let name = trim_end_set(parts[1].as_slice(), &set);
            return Some((parts[0].clone(), name));
        }
        if chars_eq(kind, &chars_of("type")) {
            let lt = vec!['<'];
            assert(lt@ =~= seq!['<']);
            let name = if contains_exec(parts[1].as_slice(), &lt) {
                before_first_exec(parts[1].as_slice(), &lt)
            } else {
                let set = vec!['{', ';'];
                assert(set@ =~= seq!['{', ';']);
                trim_end_set(parts[1].as_slice(), &set)
            };
            return Some((parts[0].clone(), name));
        }
        let is_async = chars_eq(kind, &chars_of("async"));
        if chars_eq(kind, &chars_of("fn")) || is_async {
            let idx: usize = if is_async && chars_eq(parts[1].as_slice(), &chars_of("fn")) {
                2
            } else {
                1
            };
            if idx >= parts.len() {
                return None;
            }
            assert(parts[idx as int]@ == pv[idx as int]);
            let paren = vec!['('];
            assert(paren@ =~= seq!['(']);
            let lt = vec!['<'];
            assert(lt@ =~= seq!['<']);
            let before_paren = before_first_exec(parts[idx].as_slice(), &paren);
            let name = before_first_exec(&before_paren, &lt);
            return Some((chars_of("fn"), name));
        }
        None
    }

    fn extract_let_binding(&self, line: &[char]) -> (r: Option<(Vec<char>, Vec<char>)>)
        ensures
            match r {
                Some((n, t)) => let_binding(line@) == Some((n@, t@)),
                None => let_binding(line@) is None,
            },
    {
        let trimmed = trim(line);
        let rest = match strip_prefix_exec(&trimmed, &chars_of("let ")) {
            Some(r) => r,
            None => return None,
        };
        let colon = vec![':'];
        assert(colon@ =~= seq![':']);
        let (n, t) = match split_once_exec(&rest, &colon) {
            Some(p) => p,
            None => return None,
        };
        let name = trim(&n);
        let ty = trim(&t);
        let space = vec![' '];
        assert(space@ =~= seq![' ']);
        if name.len() > 0 && !contains_exec(&name, &space) && ty.len() > 0 {
            Some((name, ty))
        } else {
            None
        }
    }

    fn extract_field(&self, line: &[char]) -> (r: Option<Vec<char>>)
        ensures
            match r {
                Some(f) => field_name(line@) == Some(f@),
                None => field_name(line@) is None,
            },
    {
        let trimmed = trim(line);
        let colon = vec![':'];
        assert(colon@ =~= seq![':']);
        if contains_exec(&trimmed, &colon) && !starts_with(&trimmed, &chars_of("fn "))
            && !starts_with(&trimmed, &chars_of("pub fn ")) {
            let name = trim(&before_first_exec(&trimmed, &colon));
            let space = vec![' '];
            assert(space@ =~= seq![' ']);
            if name.len() > 0 && !contains_exec(&name, &space) {
                return Some(name);
            }
        }
        None
    }

    fn qualified(kind: &[char], prefix_path: &[char], name: &[char]) -> (r: Vec<char>)
        ensures
            r@ == qualified(kind@, prefix_path@, name@),
    {
        let space = vec![' '];
        assert(space@ =~= seq![' ']);
        let a = concat(kind, &space);
        let b = concat(&a, prefix_path);
        let c = concat(&b, &chars_of("::"));
        concat(&c, name)
    }

    fn line_symbol(&self, line: &[char], idx: usize, prefix_path: &[char]) -> (r: Option<Vec<char>>)
        ensures
            match r {
                Some(s) => line_symbol(line@, idx as int, prefix_path@) == Some(s@),
                None => line_symbol(line@, idx as int, prefix_path@) is None,
            },
    {
        let trimmed = trim(line);
        if let Some(rest) = strip_prefix_exec(&trimmed, &chars_of("pub ")) {
            return match self.extract_kind_and_name(&rest) {
                Some((kind, name)) => Some(Self::qualified(&kind, prefix_path, &name)),
                None => None,
            };
        }
        if let Some((kind, name)) = self.extract_kind_and_name(&trimmed) {
            if idx > 0 {
                return Some(Self::qualified(&kind, prefix_path, &name));
            }
            return None;
        }
        if idx > 0 {
            if let Some(f) = self.extract_field(&trimmed) {
                let a = concat(&chars_of("field "), prefix_path);
                let b = concat(&a, &chars_of("::"));
                return Some(concat(&b, &f));
            }
        }
        None
    }

    /// The qualified name of the symbol described by hover text, such as
    /// `struct jump::config::JumpConfig` or `let x: u32`.
    pub fn qualified_name_from_text(&self, text: &str) -> (r: Option<String>)
        ensures
            match r {
                Some(s) => qualified_name(text@) == Some(s@),
                None => qualified_name(text@) is None,
            },
    {
        let chars = chars_of(text);
        let ls = lines_exec(&chars);
        let ghost lv = views(ls@);
        if ls.len() == 0 {
            return None;
        }
        assert(ls@[0]@ == lv[0]);
        let first = trim(ls[0].as_slice());
        if let Some((name, ty)) = self.extract_let_binding(&first) {
            let a = concat(&chars_of("let "), &name);
            let b = concat(&a, &chars_of(": "));
            return Some(string_of(&concat(&b, &ty)));
        }
        if !contains_exec(&first, &chars_of("::")) && ls.len() < 3 {
            return None;
        }
        assert(lv == lines(text@));
        assert(qualified_name(text@) == first_symbol_from(lv, first@, 0));
        let mut i: usize = 0;
        while i < ls.len()
            invariant
                i <= ls@.len(),
                lv == views(ls@),
                qualified_name(text@) == first_symbol_from(lv, first@, 0),
                first_symbol_from(lv, first@, 0) == first_symbol_from(lv, first@, i as int),
            decreases ls.len() - i,
        {
            assert(ls@[i as int]@ == lv[i as int]);
            if let Some(s) = self.line_symbol(ls[i].as_slice(), i, &first) {
                return Some(string_of(&s));
            }
            i += 1;
        }
        None
    }

    /// The kind shown in hover text: the second word of its second line.
    pub fn kind_from_text(&self, text: &str) -> (r: Option<String>)
        ensures
            match r {
                Some(s) => hover_kind(text@) == Some(s@),
                None => hover_kind(text@) is None,
            },
    {
        let chars = chars_of(text);
        let ls = lines_exec(&chars);
        let ghost lv = views(ls@);
        if ls.len() < 2 {
            return None;
        }
        assert(ls@[1]@ == lv[1]);
        let w = words_exec(ls[1].as_slice());
        assert(views(w@) == words(lv[1]));
        if w.len() < 2 {
            return None;
        }
        assert(w@[1]@ == views(w@)[1]);
        Some(string_of(w[1].as_slice()))
    }

    /// The 1-based line of a definition from its 0-based LSP line, kept to 32 bits.
    pub fn definition_line(zero_based: u64) -> (r: u32)
        requires
            zero_based < u64::MAX,
        ensures
            r == ((zero_based + 1) % 0x1_0000_0000) as u32,
    {
        let one_based = zero_based + 1;
        let r = (one_based % 0x1_0000_0000) as u32;
        r
    }
}


/// Lines joined with `\n` between them.
pub open spec fn joined_lines(parts: Seq<Seq<char>>) -> Seq<char>
    decreases parts.len(),
{
    if parts.len() == 0 {
        Seq::empty()
    } else if parts.len() == 1 {
        parts[0]
    } else {
        joined_lines(parts.drop_last()) + seq!['\n'] + parts.last()
    }
}

/// The text of hover contents: a string as it is, an object's string
/// `value` (else the object's JSON text), the texts of an array joined by
/// newlines, and the JSON text of anything else.
pub open spec fn contents_text(c: HoverContents) -> Seq<char>
    decreases c, 1nat,
{
    match c {
        HoverContents::Text(s) => s@,
        HoverContents::Object { value, json } => match value {
            Some(v) => v@,
            None => json@,
        },
        HoverContents::List(items) => joined_lines(texts_of(items@)),
        HoverContents::Other(j) => j@,
    }
}

/// The texts of a sequence of hover contents.
pub open spec fn texts_of(items: Seq<HoverContents>) -> Seq<Seq<char>>
    decreases items, 0nat,
{
    if items.len() == 0 {
        Seq::empty()
    } else {
        texts_of(items.drop_last()).push(contents_text(items.last()))
    }
}

/// The text the qualified name is read from: a string, or an object's string `value`.
pub open spec fn name_source(c: Option<HoverContents>) -> Option<Seq<char>> {
    match c {
        Some(HoverContents::Text(s)) => Some(s@),
        Some(HoverContents::Object { value: Some(v), .. }) => Some(v@),
        _ => None,
    }
}

/// The text the kind is read from: an object's string `value`.
pub open spec fn kind_source(c: Option<HoverContents>) -> Option<Seq<char>> {
    match c {
        Some(HoverContents::Object { value: Some(v), .. }) => Some(v@),
        _ => None,
    }
}

/// The view of an optional string.
pub open spec fn opt_text(o: Option<String>) -> Option<Seq<char>> {
    match o {
        Some(s) => Some(s@),
        None => None,
    }
}

/// The definition's 0-based line, if any, is below `u64::MAX`, so that the
/// 1-based line can be computed.
pub open spec fn definition_line_fits(definition: DefinitionReply) -> bool {
    match definition.first {
        Some(loc) => match loc.start_line {
            Some(l) => l < u64::MAX,
            None => true,
        },
        None => true,
    }
}

/// Reads symbols out of language-server replies.
pub trait SymbolExtractor {
    /// The qualified name of the symbol a hover reply describes.
    fn extract_qualified_name(&self, hover_result: &HoverReply) -> Option<String>;

    /// The text of a hover reply.
    fn extract_hover_text(&self, hover_result: &HoverReply) -> Option<String>;

    /// What a hover reply and a definition reply tell of the symbol; the
    /// definition's 0-based line must have a successor.
    fn extract_symbol_info(&self, hover: &HoverReply, definition: &DefinitionReply) -> SymbolInfo
        requires
            definition_line_fits(*definition),
    ;
}

fn join_lines(parts: &Vec<String>) -> (r: Vec<char>)
    ensures
        r@ == joined_lines(Seq::new(parts@.len(), |i: int| parts@[i]@)),
{
    let ghost pv = Seq::new(parts@.len(), |i: int| parts@[i]@);
    let mut r: Vec<char> = Vec::new();
    let mut i: usize = 0;
    while i < parts.len()
        invariant
            i <= parts@.len(),
            pv == Seq::new(parts@.len(), |k: int| parts@[k]@),
            r@ == joined_lines(pv.take(i as int)),
        decreases parts.len() - i,
    {
        assert(pv.take(i + 1).drop_last() =~= pv.take(i as int));
        let item = chars_of(parts[i].as_str());
        if i == 0 {
            r = item;
            assert(pv.take(1) =~= seq![pv[0]]);
        } else {
            let newline = vec!['\n'];
            assert(newline@ =~= seq!['\n']);
            let with_newline = concat(&r, &newline);
            r = concat(&with_newline, &item);
        }
        i += 1;
    }
    assert(pv.take(parts@.len() as int) =~= pv);
    r
}

fn normalize(c: &HoverContents) -> (r: String)
    ensures
        r@ == contents_text(*c),
    decreases c,
{
    match c {
        HoverContents::Text(s) => s.clone(),
        HoverContents::Object { value, json } => match value {
            Some(v) => v.clone(),
            None => json.clone(),
        },
        HoverContents::List(items) => {
            let mut texts: Vec<String> = Vec::new();
            let mut i: usize = 0;
            while i < items.len()
                invariant
                    i <= items@.len(),
                    *c is List,
                    c->List_0 == *items,
                    Seq::new(texts@.len(), |k: int| texts@[k]@) == texts_of(items@.take(i as int)),
                decreases items.len() - i,
            {
                proof {
                    assert(decreases_to!(*c => items@[i as int]));
                }
                let t = normalize(&items[i]);
                assert(items@.take(i + 1).drop_last() =~= items@.take(i as int));
                texts.push(t);
                i += 1;
                assert(Seq::new(texts@.len(), |k: int| texts@[k]@) =~= texts_of(items@.take(i as int)));
            }
            assert(items@.take(items@.len() as int) =~= items@);
            let joined = join_lines(&texts);
            string_of(&joined)
        },
        HoverContents::Other(j) => j.clone(),
    }
}

impl SymbolExtractor for RustSymbolExtractor {
    /// The qualified name read from the reply's string contents or from the
    /// string `value` of its object contents.
    fn extract_qualified_name(&self, hover_result: &HoverReply) -> (r: Option<String>)
        ensures
            opt_text(r) == match name_source(hover_result.contents) {
                Some(t) => qualified_name(t),
                None => None,
            },
    {
        let text: &str = match &hover_result.contents {
            Some(HoverContents::Text(s)) => s.as_str(),
            Some(HoverContents::Object { value: Some(v), .. }) => v.as_str(),
            _ => return None,
        };
        self.qualified_name_from_text(text)
    }

    /// The text of the reply's contents, if it has any.
    fn extract_hover_text(&self, hover_result: &HoverReply) -> (r: Option<String>)
        ensures
            opt_text(r) == match hover_result.contents {
                Some(c) => Some(contents_text(c)),
                None => None,
            },
    {
        match &hover_result.contents {
            Some(c) => Some(normalize(c)),
            None => None,
        }
    }

    /// The qualified name and kind from the hover reply, and the uri and
    /// 1-based line of the first definition.
    fn extract_symbol_info(&self, hover: &HoverReply, definition: &DefinitionReply) -> (r: SymbolInfo)
        ensures
            opt_text(r.qualified_name) == match name_source(hover.contents) {
                Some(t) => qualified_name(t),
                None => None,
            },
            opt_text(r.kind) == match kind_source(hover.contents) {
                Some(t) => hover_kind(t),
                None => None,
            },
            opt_text(r.definition_uri) == match definition.first {
                Some(loc) => opt_text(loc.uri),
                None => None,
            },
            r.definition_line == match definition.first {
                Some(loc) => match loc.start_line {
                    Some(l) => Some(((l + 1) % 0x1_0000_0000) as u32),
                    None => None,
                },
                None => None,
            },
    {
        let qualified_name = self.extract_qualified_name(hover);
        let kind = match &hover.contents {
            Some(HoverContents::Object { value: Some(v), .. }) => self.kind_from_text(v.as_str()),
            _ => None,
        };
        let (definition_uri, definition_line) = match &definition.first {
            Some(loc) => {
                let uri = match &loc.uri {
                    Some(u) => Some(u.clone()),
                    None => None,
                };
                let line = match loc.start_line {
                    Some(l) => Some(Self::definition_line(l)),
                    None => None,
                };
                (uri, line)
            },
            None => (None, None),
        };
        SymbolInfo { qualified_name, kind, definition_uri, definition_line }
    }
}


/// A character of a Rust identifier (ASCII letters, digits and `_`).
pub open spec fn is_ident_char(c: char) -> bool {
    ('a' <= c && c <= 'z') || ('A' <= c && c <= 'Z') || ('0' <= c && c <= '9') || c == '_'
}

/// A Rust identifier such as `JumpLinkKind`.
pub open spec fn is_identifier(name: Seq<char>) -> bool {
    name.len() > 0 && forall|i: int| 0 <= i < name.len() ==> is_ident_char(#[trigger] name[i])
}

/// The declaration keywords that name a plain item, spelled out.
proof fn lemma_plain_kinds(kind: Seq<char>)
    requires
        kind == "struct"@ || kind == "enum"@ || kind == "trait"@ || kind == "const"@ || kind == "static"@,
    ensures
        kind.len() > 0,
        forall|i: int| 0 <= i < kind.len() ==> !is_ws(#[trigger] kind[i]),
{
    reveal_strlit("struct");
    reveal_strlit("enum");
    reveal_strlit("trait");
    reveal_strlit("const");
    reveal_strlit("static");
    if kind == "struct"@ {
        assert(kind =~= seq!['s', 't', 'r', 'u', 'c', 't']);
    } else if kind == "enum"@ {
        assert(kind =~= seq!['e', 'n', 'u', 'm']);
    } else if kind == "trait"@ {
        assert(kind =~= seq!['t', 'r', 'a', 'i', 't']);
    } else if kind == "const"@ {
        assert(kind =~= seq!['c', 'o', 'n', 's', 't']);
    } else {
        assert(kind =~= seq!['s', 't', 'a', 't', 'i', 'c']);
    }
}

/// Identifier characters are not whitespace.
proof fn lemma_identifier_no_ws(name: Seq<char>)
    requires
        is_identifier(name),
    ensures
        forall|i: int| 0 <= i < name.len() ==> !is_ws(#[trigger] name[i]),
        !seq!['{', ';', '<'].contains(name.last()),
{
    assert forall|i: int| 0 <= i < name.len() implies !is_ws(#[trigger] name[i]) by {
        assert(is_ident_char(name[i]));
    }
    assert(is_ident_char(name[name.len() - 1]));
    if seq!['{', ';', '<'].contains(name.last()) {
        let k = choose|k: int| 0 <= k < 3 && seq!['{', ';', '<'][k] == name.last();
        assert(seq!['{', ';', '<'][k] == name.last());
    }
}

/// A declaration line `<kind> <name> {`, for each of the keywords `struct`,
/// `enum`, `trait`, `const` and `static` and every identifier, names that
/// kind and that identifier.
pub proof fn law_declaration_kind_and_name(kind: Seq<char>, name: Seq<char>)
    requires
        kind == "struct"@ || kind == "enum"@ || kind == "trait"@ || kind == "const"@ || kind == "static"@,
        is_identifier(name),
    ensures
        kind_and_name(kind + seq![' '] + name + " {"@) == Some((kind, name)),
{
    reveal_strlit(" {");
    lemma_plain_kinds(kind);
    lemma_identifier_no_ws(name);
    let line = kind + seq![' '] + name + " {"@;
    assert(line =~= kind + seq![' '] + (name + seq![' '] + seq!['{']));
    lemma_words_space(kind, name + seq![' '] + seq!['{']);
    lemma_words_space(name, seq!['{']);
    lemma_words_single(kind);
    lemma_words_single(name);
    lemma_words_single(seq!['{']);
    assert(words(line) =~= seq![kind, name, seq!['{']]);
    assert(trim_end_by(name, seq!['{', ';', '<']) == name);
}

/// Hover text `<module>\n\npub <kind> <name> {`, for each of the keywords
/// `struct`, `enum`, `trait`, `const` and `static`, every module path without
/// whitespace and every identifier, gives the qualified name
/// `<kind> <module>::<name>`.
pub proof fn law_hover_qualified_name(module: Seq<char>, kind: Seq<char>, name: Seq<char>)
    requires
        kind == "struct"@ || kind == "enum"@ || kind == "trait"@ || kind == "const"@ || kind == "static"@,
        is_identifier(name),
        module.len() > 0,
        forall|i: int| 0 <= i < module.len() ==> !is_ws(#[trigger] module[i]),
    ensures
        qualified_name(module + seq!['\n', '\n'] + "pub "@ + kind + seq![' '] + name + " {"@) == Some(
            kind + seq![' '] + module + "::"@ + name,
        ),
{
    reveal_strlit("pub ");
    reveal_strlit("let ");
    reveal_strlit(" {");
    lemma_plain_kinds(kind);
    lemma_identifier_no_ws(name);
    let decl = kind + seq![' '] + name + " {"@;
    let last = "pub "@ + decl;
    let text = module + seq!['\n', '\n'] + "pub "@ + kind + seq![' '] + name + " {"@;
    // the three lines
    assert(text =~= module + seq!['\n'] + (Seq::<char>::empty() + seq!['\n'] + last));
    assert(!module.contains('\n')) by {
        if module.contains('\n') {
            let k = choose|k: int| 0 <= k < module.len() && module[k] == '\n';
            assert(!is_ws(module[k]));
        }
    }
    assert(!Seq::<char>::empty().contains('\n'));
    assert(!last.contains('\n')) by {
        if last.contains('\n') {
            let k = choose|k: int| 0 <= k < last.len() && last[k] == '\n';
            let a = 4 + kind.len();
            if k < 4 {
                assert(last[k] == "pub "@[k]);
            } else if k < a {
                assert(last[k] == kind[k - 4]);
            } else if k == a {
                assert(last[k] == ' ');
            } else if k < a + 1 + name.len() {
                assert(last[k] == name[k - a - 1]);
            } else {
                assert(last[k] == " {"@[k - a - 1 - name.len()]);
            }
        }
    }
    lemma_lines_cons(module, Seq::<char>::empty() + seq!['\n'] + last);
    lemma_lines_cons(Seq::<char>::empty(), last);
    lemma_split_on_without_sep(last, '\n');
    assert(lines(last) =~= seq![last]);
    assert(module.last() == module[module.len() - 1]);
    assert(strip_cr(module) == module);
    assert(strip_cr(Seq::<char>::empty()) == Seq::<char>::empty());
    let ls = lines(text);
    assert(ls =~= seq![module, Seq::<char>::empty(), last]);
    // the first line is the module path
    lemma_trim_ws_id(module);
    lemma_words_single(module);
    assert(strip_prefix(module, "let "@) is None) by {
        if has_prefix(module, "let "@) {
            assert(module[3] == module.take(4)[3]);
        }
    }
    assert(let_binding(module) is None);
    assert(strip_prefix(module, "pub "@) is None) by {
        if has_prefix(module, "pub "@) {
            assert(module[3] == module.take(4)[3]);
        }
    }
    assert(kind_and_name(module) is None);
    assert(line_symbol(module, 0, module) is None);
    // the empty line names nothing
    let e = Seq::<char>::empty();
    assert(trim_ws(e) == e);
    assert(words(e) == Seq::<Seq<char>>::empty());
    assert(find(e, seq![':']) is None);
    assert(line_symbol(e, 1, module) is None);
    // the declaration line
    assert(last[0] == 'p');
    assert(last.last() == '{');
    lemma_trim_ws_id(last);
    assert(last.take(4) =~= "pub "@);
    assert(last.skip(4) =~= decl);
    law_declaration_kind_and_name(kind, name);
    assert(line_symbol(last, 2, module) == Some(qualified(kind, module, name)));
    assert(first_symbol_from(ls, module, 2) == Some(qualified(kind, module, name)));
    assert(first_symbol_from(ls, module, 1) == Some(qualified(kind, module, name)));
    assert(first_symbol_from(ls, module, 0) == Some(qualified(kind, module, name)));
}

/// An identifier holds none of the characters that can follow a name.
proof fn lemma_identifier_lacks(name: Seq<char>, c: char)
    requires
        is_identifier(name),
        !is_ident_char(c),
    ensures
        !name.contains(c),
{
    if name.contains(c) {
        let k = choose|k: int| 0 <= k < name.len() && name[k] == c;
        assert(is_ident_char(name[k]));
    }
}

/// The name of a function declared by `<name>()`: the identifier itself.
proof fn lemma_call_name(name: Seq<char>)
    requires
        is_identifier(name),
    ensures
        before_first(before_first(name + "()"@, seq!['(']), seq!['<']) == name,
{
    reveal_strlit("()");
    let t = name + "()"@;
    lemma_identifier_lacks(name, '(');
    lemma_identifier_lacks(name, '<');
    assert forall|j: int| 0 <= j < name.len() implies t[j] != '(' by {
        assert(t[j] == name[j]);
        if t[j] == '(' {
            assert(name.contains('('));
        }
    }
    assert(t[name.len() as int] == '(');
    lemma_find_char(t, '(', name.len() as int);
    assert(t.take(name.len() as int) =~= name);
    lemma_find_char_absent(name, '<');
}

/// A function line `fn <name>()` or `async fn <name>()`, for every
/// identifier, names a function (`fn`) with that identifier.
pub proof fn law_function_kind_and_name(name: Seq<char>)
    requires
        is_identifier(name),
    ensures
        kind_and_name("fn "@ + name + "()"@) == Some(("fn"@, name)),
        kind_and_name("async fn "@ + name + "()"@) == Some(("fn"@, name)),
{
    reveal_strlit("fn ");
    reveal_strlit("fn");
    reveal_strlit("async fn ");
    reveal_strlit("async");
    reveal_strlit("()");
    reveal_strlit("struct");
    reveal_strlit("enum");
    reveal_strlit("trait");
    reveal_strlit("const");
    reveal_strlit("static");
    reveal_strlit("type");
    lemma_identifier_no_ws(name);
    let call = name + "()"@;
    assert forall|i: int| 0 <= i < call.len() implies !is_ws(#[trigger] call[i]) by {
        if i >= name.len() {
            assert(call[i] == "()"@[i - name.len()]);
        }
    }
    let f = seq!['f', 'n'];
    let a = seq!['a', 's', 'y', 'n', 'c'];
    assert(f =~= "fn"@);
    assert(a =~= "async"@);
    lemma_words_single(f);
    lemma_words_single(a);
    lemma_words_single(call);
    assert("fn "@ + name + "()"@ =~= f + seq![' '] + call);
    lemma_words_space(f, call);
    assert(words("fn "@ + name + "()"@) =~= seq![f, call]);
    assert("async fn "@ + name + "()"@ =~= a + seq![' '] + (f + seq![' '] + call));
    lemma_words_space(a, f + seq![' '] + call);
    assert(words("async fn "@ + name + "()"@) =~= seq![a, f, call]);
    lemma_call_name(name);
}

/// A type alias line `type <name> = ...;` names a type with that identifier.
pub proof fn law_type_kind_and_name(name: Seq<char>, rest: Seq<char>)
    requires
        is_identifier(name),
    ensures
        kind_and_name("type "@ + name + " = "@ + rest) == Some(("type"@, name)),
{
    reveal_strlit("type ");
    reveal_strlit("type");
    reveal_strlit(" = ");
    reveal_strlit("struct");
    reveal_strlit("enum");
    reveal_strlit("trait");
    reveal_strlit("const");
    reveal_strlit("static");
    lemma_identifier_no_ws(name);
    lemma_identifier_lacks(name, '<');
    let t = seq!['t', 'y', 'p', 'e'];
    assert(t =~= "type"@);
    lemma_words_single(t);
    lemma_words_single(name);
    let tail = seq!['='] + seq![' '] + rest;
    assert("type "@ + name + " = "@ + rest =~= t + seq![' '] + (name + seq![' '] + tail));
    lemma_words_space(t, name + seq![' '] + tail);
    lemma_words_space(name, tail);
    let w = words("type "@ + name + " = "@ + rest);
    assert(w.len() >= 2 && w[0] == t && w[1] == name) by {
        assert(w =~= seq![t] + (seq![name] + words(tail)));
    }
    lemma_find_char_absent(name, '<');
    assert(trim_end_by(name, seq!['{', ';']) == name) by {
        assert(is_ident_char(name[name.len() - 1]));
        if seq!['{', ';'].contains(name.last()) {
            let k = choose|k: int| 0 <= k < 2 && seq!['{', ';'][k] == name.last();
            assert(seq!['{', ';'][k] == name.last());
        }
    }
}
} // verus!
