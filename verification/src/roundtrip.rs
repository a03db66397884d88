//! Laws that relate the links the library writes to what it reads back.
use vstd::prelude::*;

use crate::git::github::{github_url, line_fragment_text, permalink_markdown};
use crate::number::{decimal, lemma_decimal_roundtrip};
use crate::parser::link::{
    file_url_request, github_request, is_absolute_path, line_fragment, line_like,
    link_target, parse_link, path_and_line,
};
use crate::parser::types::{JumpLinkKind, JumpRequestView};
use crate::text::{
    contains, find, has_prefix, is_digit, is_ws, lemma_contains_prefix, lemma_find_match, lemma_find_absent, lemma_find_char,
    lemma_find_char_absent, lemma_find_first, lemma_match_found, lemma_matches_at_chars,
    lemma_matches_at_shift, lemma_trim_by_id, lemma_trim_start_one, lemma_trim_ws_id, matches_at,
    lemma_matches_at_char, has_suffix, rfind, rfind_upto, rsplit_once, split_nth, split_once,
    strip_prefix, trim_by,
    trim_end_by, trim_start_by, trim_ws,
};

verus! {

/// The end line a permalink keeps: the end of a range that ends on another line.
pub open spec fn kept_end(start: u32, end: Option<u32>) -> Option<u32> {
    match end {
        Some(e) => if e != start {
            Some(e)
        } else {
            None
        },
        None => None,
    }
}

/// The text after `#L` in a line fragment.
spec fn fragment_digits(start: u32, end: Option<u32>) -> Seq<char> {
    match kept_end(start, end) {
        Some(e) => decimal(start as nat) + seq!['-', 'L'] + decimal(e as nat),
        None => decimal(start as nat),
    }
}

proof fn lemma_fragment_shape(start: u32, end: Option<u32>)
    ensures
        line_fragment_text(start, end) == seq!['#', 'L'] + fragment_digits(start, end),
{
    reveal_strlit("#L");
    reveal_strlit("-L");
    assert("#L"@ =~= seq!['#', 'L']);
    assert("-L"@ =~= seq!['-', 'L']);
    match end {
        Some(e) => if e != start {
            assert(line_fragment_text(start, end) =~= seq!['#', 'L'] + fragment_digits(start, end));
        } else {
            assert(line_fragment_text(start, end) =~= seq!['#', 'L'] + fragment_digits(start, end));
        },
        None => {
            assert(line_fragment_text(start, end) =~= seq!['#', 'L'] + fragment_digits(start, end));
        },
    }
}

/// What is read from `L<digits>` with or without `#` before it.
proof fn lemma_read_fragment(start: u32, end: Option<u32>)
    ensures
        line_fragment(seq!['L'] + fragment_digits(start, end)) == (Some(start), kept_end(start, end)),
        line_fragment(seq!['#', 'L'] + fragment_digits(start, end)) == (Some(start), kept_end(start, end)),
{
    lemma_decimal_roundtrip(start);
    let ds = decimal(start as nat);
    let u = fragment_digits(start, end);
    let t = seq!['L'] + u;
    assert(is_digit(ds[0]));
    assert(u[0] == ds[0]);
    assert(is_digit(u.last())) by {
        match kept_end(start, end) {
            Some(e) => {
                lemma_decimal_roundtrip(e);
                let de = decimal(e as nat);
                assert(u.last() == de.last());
                assert(is_digit(de[de.len() - 1]));
            },
            None => {
                assert(is_digit(ds[ds.len() - 1]));
            },
        }
    }
    // `#` goes first, then whitespace (there is none), then the `L`.
    assert(seq!['#', 'L'] + u =~= seq!['#'] + t);
    assert(seq!['#'].contains('#')) by {
        assert(seq!['#'][0] == '#');
    }
    lemma_trim_start_one('#', t, seq!['#']);
    assert(trim_start_by(t, seq!['#']) == t) by {
        assert(!seq!['#'].contains(t[0])) by {
            assert(t[0] == 'L');
        }
    }
    assert(t.last() == u.last());
    lemma_trim_ws_id(t);
    assert(trim_ws(t) == t);
    assert(!seq!['L', 'l'].contains(u[0])) by {
        if seq!['L', 'l'].contains(u[0]) {
            let k = choose|k: int| 0 <= k < 2 && seq!['L', 'l'][k] == u[0];
        }
    }
    assert(seq!['L', 'l'].contains('L')) by {
        assert(seq!['L', 'l'][0] == 'L');
    }
    lemma_trim_start_one('L', u, seq!['L', 'l']);
    assert(trim_start_by(trim_ws(trim_start_by(t, seq!['#'])), seq!['L', 'l']) == u);
    assert(trim_start_by(trim_ws(trim_start_by(seq!['#'] + t, seq!['#'])), seq!['L', 'l']) == u);
    match kept_end(start, end) {
        Some(e) => {
            lemma_decimal_roundtrip(e);
            let de = decimal(e as nat);
            assert(u == ds + seq!['-', 'L'] + de);
            assert forall|j: int| 0 <= j < ds.len() implies u[j] != '-' by {
                assert(u[j] == ds[j]);
                assert(is_digit(ds[j]));
            }
            assert(u[ds.len() as int] == '-');
            lemma_find_char(u, '-', ds.len() as int);
            let rest = u.skip(ds.len() as int + 1);
            assert(u.take(ds.len() as int) =~= ds);
            assert(rest =~= seq!['L'] + de);
            assert(split_once(u, seq!['-']) == Some((ds, rest)));
            assert(!seq!['L', 'l'].contains(de[0])) by {
                assert(is_digit(de[0]));
                if seq!['L', 'l'].contains(de[0]) {
                    let k = choose|k: int| 0 <= k < 2 && seq!['L', 'l'][k] == de[0];
                }
            }
            lemma_trim_start_one('L', de, seq!['L', 'l']);
        },
        None => {
            assert(!u.contains('-')) by {
                if u.contains('-') {
                    let k = choose|k: int| 0 <= k < u.len() && u[k] == '-';
                    assert(is_digit(u[k]));
                }
            }
            lemma_find_char_absent(u, '-');
        },
    }
}

/// Reading back the line fragment of a permalink gives its lines: the start,
/// and the end when the range ends on another line.
pub proof fn law_line_fragment_roundtrip(start: u32, end: Option<u32>)
    ensures
        line_fragment(line_fragment_text(start, end)) == (Some(start), kept_end(start, end)),
        line_fragment(line_fragment_text(start, end).drop_first()) == (Some(start), kept_end(
            start,
            end,
        )),
{
    lemma_fragment_shape(start, end);
    lemma_read_fragment(start, end);
    assert(line_fragment_text(start, end).drop_first() =~= seq!['L'] + fragment_digits(start, end));
}

} // verus!

verus! {

/// No `/blob/` starts within `base`, so the first one in a permalink is the
/// one that follows the base.
pub open spec fn blob_only_after(base: Seq<char>) -> bool {
    !contains(base + "/blob"@, "/blob/"@)
}

/// A base URL, revision and path that a blob URL can be read back from:
/// an https URL on github.com, no `#` or `]` anywhere and no `/` in the
/// revision (the path may still carry a query).
pub open spec fn blob_url_parts_ok(base: Seq<char>, revision: Seq<char>, path: Seq<char>) -> bool {
    &&& has_prefix(base, "https://"@)
    &&& contains(base, "github.com"@)
    &&& blob_only_after(base)
    &&& !base.contains('#') && !revision.contains('#') && !path.contains('#')
    &&& !base.contains(']') && !revision.contains(']') && !path.contains(']')
    &&& !revision.contains('/')
}

/// A base URL, revision and path from which a permalink can be read back:
/// those of a blob URL, with no `?` in the path.
pub open spec fn permalink_parts_ok(base: Seq<char>, revision: Seq<char>, path: Seq<char>) -> bool {
    &&& blob_url_parts_ok(base, revision, path)
    &&& !path.contains('?')
}

/// The permalink up to its fragment.
spec fn link_part_of(base: Seq<char>, revision: Seq<char>, path: Seq<char>) -> Seq<char> {
    base + "/blob/"@ + revision + seq!['/'] + path
}

proof fn lemma_no_char_in_link_part(base: Seq<char>, revision: Seq<char>, path: Seq<char>, c: char)
    requires
        !base.contains(c),
        !revision.contains(c),
        !path.contains(c),
        c != '/' && c != 'b' && c != 'l' && c != 'o',
    ensures
        !link_part_of(base, revision, path).contains(c),
{
    reveal_strlit("/blob/");
    let lp = link_part_of(base, revision, path);
    let blob = "/blob/"@;
    assert(blob =~= seq!['/', 'b', 'l', 'o', 'b', '/']);
    if lp.contains(c) {
        let k = choose|k: int| 0 <= k < lp.len() && lp[k] == c;
        let b = base.len() as int;
        let r = b + 6 + revision.len();
        if k < b {
            assert(base[k] == c);
        } else if k < b + 6 {
            assert(blob[k - b] == c);
        } else if k < r {
            assert(revision[k - b - 6] == c);
        } else if k == r {
            assert(lp[k] == '/');
        } else {
            assert(path[k - r - 1] == c);
        }
    }
}

proof fn lemma_reveal_literals()
    ensures
        "/blob/"@ == seq!['/', 'b', 'l', 'o', 'b', '/'],
        "/blob"@ == seq!['/', 'b', 'l', 'o', 'b'],
        "https://"@ == seq!['h', 't', 't', 'p', 's', ':', '/', '/'],
        "]("@ == seq![']', '('],
{
    reveal_strlit("/blob/");
    reveal_strlit("/blob");
    reveal_strlit("https://");
    reveal_strlit("](");
    assert("/blob/"@ =~= seq!['/', 'b', 'l', 'o', 'b', '/']);
    assert("/blob"@ =~= seq!['/', 'b', 'l', 'o', 'b']);
    assert("https://"@ =~= seq!['h', 't', 't', 'p', 's', ':', '/', '/']);
    assert("]("@ =~= seq![']', '(']);
}

proof fn lemma_url_shape(base: Seq<char>, revision: Seq<char>, path: Seq<char>, start: u32, end: Option<u32>)
    ensures
        github_url(base, revision, path, start, end) == link_part_of(base, revision, path) + seq!['#', 'L']
            + fragment_digits(start, end),
        fragment_digits(start, end).len() > 0,
        is_digit(fragment_digits(start, end).last()),
{
    lemma_fragment_shape(start, end);
    lemma_decimal_roundtrip(start);
    let fd = fragment_digits(start, end);
    assert(github_url(base, revision, path, start, end) =~= link_part_of(base, revision, path) + (
    seq!['#', 'L'] + fd));
    match kept_end(start, end) {
        Some(e) => {
            lemma_decimal_roundtrip(e);
            let de = decimal(e as nat);
            assert(fd.last() == de.last());
            assert(is_digit(de[de.len() - 1]));
        },
        None => {
            assert(is_digit(decimal(start as nat)[decimal(start as nat).len() - 1]));
        },
    }
}

/// The link target of a permalink is the permalink itself.
proof fn lemma_target_is_url(base: Seq<char>, revision: Seq<char>, path: Seq<char>, start: u32, end: Option<u32>)
    requires
        blob_url_parts_ok(base, revision, path),
    ensures
        link_target(github_url(base, revision, path, start, end)) == github_url(base, revision, path, start, end),
{
    lemma_reveal_literals();
    lemma_url_shape(base, revision, path, start, end);
    let url = github_url(base, revision, path, start, end);
    let lp = link_part_of(base, revision, path);
    let fd = fragment_digits(start, end);
    let frag = seq!['#', 'L'] + fd;
    assert(url =~= lp + frag);
    assert(base[0] == 'h') by {
        assert(base.take(8)[0] == 'h');
    }
    assert(url[0] == 'h');
    assert(url.last() == fd.last());
    lemma_trim_ws_id(url);
    assert(!seq!['"', '\''].contains(url[0]) && !seq!['"', '\''].contains(url.last())) by {
        if seq!['"', '\''].contains(url[0]) {
            let k = choose|k: int| 0 <= k < 2 && seq!['"', '\''][k] == url[0];
        }
        if seq!['"', '\''].contains(url.last()) {
            let k = choose|k: int| 0 <= k < 2 && seq!['"', '\''][k] == url.last();
        }
    }
    lemma_trim_by_id(url, seq!['"', '\'']);
    lemma_no_char_in_link_part(base, revision, path, ']');
    assert(!url.contains(']')) by {
        if url.contains(']') {
            let k = choose|k: int| 0 <= k < url.len() && url[k] == ']';
            if k < lp.len() {
                assert(lp[k] == ']');
                assert(lp.contains(']'));
            } else if k >= lp.len() + 2 {
                assert(frag[k - lp.len()] == ']');
                lemma_fragment_chars(start, end, k - lp.len() - 2);
            }
        }
    }
    assert forall|j: int| !matches_at(url, "]("@, j) by {
        lemma_matches_at_chars(url, "]("@, j);
        if matches_at(url, "]("@, j) {
            assert(url[j + 0] == ']');
            assert(url.contains(']'));
        }
    }
    lemma_find_absent(url, "]("@);
    assert(!seq!['('].contains(url[0]) && !seq![')'].contains(url.last())) by {
        if seq!['('].contains(url[0]) {
            assert(seq!['('][0] == url[0]);
        }
        if seq![')'].contains(url.last()) {
            assert(seq![')'][0] == url.last());
        }
    }
    lemma_trim_by_id(url, seq!['(']);
    lemma_trim_by_id(url, seq![')']);
}

/// The fragment of a permalink starts at its first `#`.
proof fn lemma_fragment_split(base: Seq<char>, revision: Seq<char>, path: Seq<char>, start: u32, end: Option<u32>)
    requires
        blob_url_parts_ok(base, revision, path),
    ensures
        split_once(github_url(base, revision, path, start, end), seq!['#']) == Some(
            (link_part_of(base, revision, path), seq!['L'] + fragment_digits(start, end)),
        ),
{
    lemma_url_shape(base, revision, path, start, end);
    let url = github_url(base, revision, path, start, end);
    let lp = link_part_of(base, revision, path);
    let fd = fragment_digits(start, end);
    assert(url =~= lp + (seq!['#', 'L'] + fd));
    lemma_no_char_in_link_part(base, revision, path, '#');
    assert forall|j: int| 0 <= j < lp.len() implies url[j] != '#' by {
        assert(url[j] == lp[j]);
        if lp[j] == '#' {
            assert(lp.contains('#'));
        }
    }
    assert(url[lp.len() as int] == '#');
    lemma_find_char(url, '#', lp.len() as int);
    assert(url.take(lp.len() as int) =~= lp);
    assert(url.skip(lp.len() as int + 1) =~= seq!['L'] + fd);
}

/// No `/blob/` starts inside the base when the text after it begins with `/blob`.
proof fn lemma_no_early_blob(base: Seq<char>, after: Seq<char>, j: int)
    requires
        blob_only_after(base),
        after.len() >= 5,
        after.take(5) == "/blob"@,
        0 <= j < base.len(),
    ensures
        !matches_at(base + after, "/blob/"@, j),
{
    lemma_reveal_literals();
    let blob = "/blob/"@;
    let s = base + after;
    let t = base + "/blob"@;
    if matches_at(s, blob, j) {
        lemma_matches_at_chars(s, blob, j);
        lemma_matches_at_chars(t, blob, j);
        assert forall|i: int| 0 <= i < blob.len() implies t[j + i] == blob[i] by {
            assert(s[j + i] == blob[i]);
            if j + i >= base.len() {
                assert(after.take(5)[j + i - base.len()] == after[j + i - base.len()]);
            }
        }
        lemma_match_found(t, blob, j);
    }
}

/// The first `/blob/` of the link part follows the base.
proof fn lemma_blob_split(base: Seq<char>, revision: Seq<char>, path: Seq<char>)
    requires
        blob_url_parts_ok(base, revision, path),
    ensures
        split_once(link_part_of(base, revision, path), "/blob/"@) == Some((base, revision + seq!['/'] + path)),
{
    lemma_reveal_literals();
    let blob = "/blob/"@;
    let lp = link_part_of(base, revision, path);
    let after = blob + revision + seq!['/'] + path;
    assert(lp =~= base + after);
    assert(after.take(5) =~= "/blob"@);
    assert forall|j: int| 0 <= j < base.len() implies !matches_at(lp, blob, j) by {
        lemma_no_early_blob(base, after, j);
    }
    assert(matches_at(after, blob, 0)) by {
        assert(after.subrange(0, 6) =~= blob);
    }
    lemma_matches_at_shift(base, after, blob, 0);
    lemma_find_first(lp, blob, base.len() as int);
    assert(lp.take(base.len() as int) =~= base);
    assert(lp.skip(base.len() as int + 6) =~= revision + seq!['/'] + path);
}

/// The revision ends at the first `/` after it.
proof fn lemma_revision_split(revision: Seq<char>, path: Seq<char>)
    requires
        !revision.contains('/'),
    ensures
        split_once(revision + seq!['/'] + path, seq!['/']) == Some((revision, path)),
{
    let rest = revision + seq!['/'] + path;
    assert forall|j: int| 0 <= j < revision.len() implies rest[j] != '/' by {
        assert(rest[j] == revision[j]);
        if revision[j] == '/' {
            assert(revision.contains('/'));
        }
    }
    assert(rest[revision.len() as int] == '/');
    lemma_find_char(rest, '/', revision.len() as int);
    assert(rest.take(revision.len() as int) =~= revision);
    assert(rest.skip(revision.len() as int + 1) =~= path);
}

/// A permalink contains the host and the blob marker.
proof fn lemma_markers_present(base: Seq<char>, revision: Seq<char>, path: Seq<char>, start: u32, end: Option<u32>)
    requires
        blob_url_parts_ok(base, revision, path),
    ensures
        contains(github_url(base, revision, path, start, end), "github.com"@),
        contains(github_url(base, revision, path, start, end), "/blob/"@),
{
    lemma_reveal_literals();
    let url = github_url(base, revision, path, start, end);
    let blob = "/blob/"@;
    let after_base = url.skip(base.len() as int);
    assert(url =~= base + after_base);
    lemma_contains_prefix(base, after_base, "github.com"@);
    assert(matches_at(after_base, blob, 0)) by {
        assert(after_base.subrange(0, 6) =~= blob);
    }
    lemma_matches_at_shift(base, after_base, blob, 0);
    lemma_match_found(url, blob, base.len() as int);
}

/// A permalink the library builds reads back as a GitHub request for the
/// same path and revision, with the start line and the end line of a range.
pub proof fn law_permalink_roundtrip(
    base: Seq<char>,
    revision: Seq<char>,
    path: Seq<char>,
    start: u32,
    end: Option<u32>,
)
    requires
        permalink_parts_ok(base, revision, path),
    ensures
        parse_link(github_url(base, revision, path, start, end)) matches Some(req) && req.kind
            == JumpLinkKind::Github && req.path == path && req.revision == Some(revision)
            && req.line == Some(start) && req.end_line == kept_end(start, end),
{
    lemma_target_is_url(base, revision, path, start, end);
    lemma_markers_present(base, revision, path, start, end);
    lemma_fragment_split(base, revision, path, start, end);
    lemma_blob_split(base, revision, path);
    lemma_revision_split(revision, path);
    lemma_read_fragment(start, end);
    lemma_find_char_absent(path, '?');
}

/// A GitHub blob URL whose path carries a query (`<path>?<query>#L..`)
/// reads back as a request for the path alone: the query, from the first
/// `?` on, is not part of the file path; revision and lines are read as
/// without a query.
pub proof fn law_blob_url_query_left_out(
    base: Seq<char>,
    revision: Seq<char>,
    path: Seq<char>,
    query: Seq<char>,
    start: u32,
    end: Option<u32>,
)
    requires
        blob_url_parts_ok(base, revision, path + seq!['?'] + query),
        !path.contains('?'),
    ensures
        parse_link(github_url(base, revision, path + seq!['?'] + query, start, end)) matches Some(req)
            && req.kind == JumpLinkKind::Github && req.path == path && req.revision == Some(revision)
            && req.line == Some(start) && req.end_line == kept_end(start, end),
{
    let full = path + seq!['?'] + query;
    lemma_target_is_url(base, revision, full, start, end);
    lemma_markers_present(base, revision, full, start, end);
    lemma_fragment_split(base, revision, full, start, end);
    lemma_blob_split(base, revision, full);
    lemma_revision_split(revision, full);
    lemma_read_fragment(start, end);
    assert forall|j: int| 0 <= j < path.len() implies full[j] != '?' by {
        assert(full[j] == path[j]);
    }
    lemma_find_char(full, '?', path.len() as int);
    assert(full.take(path.len() as int) =~= path);
}

/// Characters of the digits after `#L`: digits, and `-L` between two numbers.
proof fn lemma_fragment_chars(start: u32, end: Option<u32>, k: int)
    requires
        0 <= k < fragment_digits(start, end).len(),
    ensures
        is_digit(fragment_digits(start, end)[k]) || fragment_digits(start, end)[k] == '-'
            || fragment_digits(start, end)[k] == 'L',
{
    lemma_decimal_roundtrip(start);
    let ds = decimal(start as nat);
    let fd = fragment_digits(start, end);
    match kept_end(start, end) {
        Some(e) => {
            lemma_decimal_roundtrip(e);
            let de = decimal(e as nat);
            if k < ds.len() {
                assert(fd[k] == ds[k]);
            } else if k >= ds.len() + 2 {
                assert(fd[k] == de[k - ds.len() - 2]);
            }
        },
        None => {},
    }
}


/// The markdown link `[label](target)`.
pub open spec fn markdown_link(label: Seq<char>, target: Seq<char>) -> Seq<char> {
    seq!['['] + label + "]("@ + target + seq![')']
}

/// A link target that reads as itself: no `]` or `)` in it, and neither
/// whitespace nor a quote at its ends nor `(` at its start.
pub open spec fn bare_target(t: Seq<char>) -> bool {
    &&& !t.contains(']') && !t.contains(')')
    &&& t.len() > 0 ==> {
        &&& !is_ws(t[0]) && !is_ws(t.last())
        &&& t[0] != '"' && t[0] != '\'' && t[0] != '('
        &&& t.last() != '"' && t.last() != '\''
    }
}

proof fn lemma_not_in_pair(c: char, a: char, b: char)
    requires
        c != a && c != b,
    ensures
        !seq![a, b].contains(c),
{
    if seq![a, b].contains(c) {
        let k = choose|k: int| 0 <= k < 2 && seq![a, b][k] == c;
    }
}

proof fn lemma_not_in_one(c: char, a: char)
    requires
        c != a,
    ensures
        !seq![a].contains(c),
{
    if seq![a].contains(c) {
        let k = choose|k: int| 0 <= k < 1 && seq![a][k] == c;
    }
}

/// A bare target is its own link target.
proof fn lemma_bare_target(t: Seq<char>)
    requires
        bare_target(t),
    ensures
        link_target(t) == t,
{
    lemma_reveal_literals();
    if t.len() > 0 {
        lemma_trim_ws_id(t);
        lemma_not_in_pair(t[0], '"', '\'');
        lemma_not_in_pair(t.last(), '"', '\'');
        lemma_trim_by_id(t, seq!['"', '\'']);
        assert(trim_by(trim_ws(t), seq!['"', '\'']) == t);
        assert forall|j: int| !matches_at(t, "]("@, j) by {
            lemma_matches_at_chars(t, "]("@, j);
            if matches_at(t, "]("@, j) {
                assert(t[j + 0] == ']');
                assert(t.contains(']'));
            }
        }
        lemma_find_absent(t, "]("@);
        lemma_not_in_one(t[0], '(');
        assert(trim_start_by(t, seq!['(']) == t);
        assert(t.last() != ')') by {
            if t.last() == ')' {
                assert(t[t.len() - 1] == ')');
                assert(t.contains(')'));
            }
        }
        lemma_not_in_one(t.last(), ')');
        assert(trim_end_by(t, seq![')']) == t);
    }
}

/// The target of a markdown link whose label holds no `]` and whose target
/// holds no `)`.
proof fn lemma_markdown_target(label: Seq<char>, target: Seq<char>)
    requires
        !label.contains(']'),
        !target.contains(')'),
    ensures
        link_target(markdown_link(label, target)) == target,
{
    lemma_reveal_literals();
    let md = markdown_link(label, target);
    let head = seq!['['] + label;
    let after = target + seq![')'];
    assert(md =~= head + (seq![']', '('] + after));
    assert(md[0] == '[');
    assert(md.last() == ')');
    lemma_trim_ws_id(md);
    lemma_not_in_pair('[', '"', '\'');
    lemma_not_in_pair(')', '"', '\'');
    lemma_trim_by_id(md, seq!['"', '\'']);
    assert(trim_by(trim_ws(md), seq!['"', '\'']) == md);
    let k = head.len() as int;
    assert forall|j: int| 0 <= j < k implies !matches_at(md, "]("@, j) by {
        lemma_matches_at_chars(md, "]("@, j);
        if matches_at(md, "]("@, j) {
            assert(md[j + 0] == ']');
            if j > 0 {
                assert(label[j - 1] == md[j]);
                assert(label.contains(']'));
            }
        }
    }
    lemma_matches_at_chars(md, "]("@, k);
    lemma_find_first(md, "]("@, k);
    assert(md.take(k) =~= head);
    assert(md.skip(k + 2) =~= after);
    assert forall|j: int| 0 <= j < target.len() implies after[j] != ')' by {
        assert(after[j] == target[j]);
        if target[j] == ')' {
            assert(target.contains(')'));
        }
    }
    lemma_find_char(after, ')', target.len() as int);
    assert(after.take(target.len() as int) =~= target);
}

/// A markdown link `[label](target)` reads as its target alone, when the
/// label holds no `]` and the target is bare.
pub proof fn law_markdown_link_reads_as_target(label: Seq<char>, target: Seq<char>)
    requires
        !label.contains(']'),
        bare_target(target),
    ensures
        parse_link(markdown_link(label, target)) == parse_link(target),
{
    lemma_markdown_target(label, target);
    lemma_bare_target(target);
}

/// The markdown link the library writes for a permalink reads back as the
/// same GitHub request as the permalink itself.
pub proof fn law_permalink_markdown_roundtrip(
    base: Seq<char>,
    revision: Seq<char>,
    path: Seq<char>,
    start: u32,
    end: Option<u32>,
)
    requires
        permalink_parts_ok(base, revision, path),
        !base.contains(')') && !revision.contains(')') && !path.contains(')'),
    ensures
        parse_link(permalink_markdown(path, start, end, github_url(base, revision, path, start, end)))
            matches Some(req) && req.kind == JumpLinkKind::Github && req.path == path && req.revision
            == Some(revision) && req.line == Some(start) && req.end_line == kept_end(start, end),
{
    lemma_reveal_literals();
    let url = github_url(base, revision, path, start, end);
    let frag = line_fragment_text(start, end);
    let label = path + frag;
    lemma_fragment_shape(start, end);
    lemma_url_shape(base, revision, path, start, end);
    assert(permalink_markdown(path, start, end, url) =~= markdown_link(label, url));
    let fd = fragment_digits(start, end);
    let lp = link_part_of(base, revision, path);
    assert(url =~= lp + frag);
    assert(!label.contains(']')) by {
        if label.contains(']') {
            let k = choose|k: int| 0 <= k < label.len() && label[k] == ']';
            if k < path.len() {
                assert(path[k] == ']');
                assert(path.contains(']'));
            } else if k >= path.len() + 2 {
                assert(fd[k - path.len() - 2] == ']');
                lemma_fragment_chars(start, end, k - path.len() - 2);
            }
        }
    }
    lemma_no_char_in_link_part(base, revision, path, ']');
    lemma_no_char_in_link_part(base, revision, path, ')');
    assert(!url.contains(']') && !url.contains(')')) by {
        if url.contains(']') || url.contains(')') {
            let k = choose|k: int| 0 <= k < url.len() && (url[k] == ']' || url[k] == ')');
            if k < lp.len() {
                assert(lp[k] == url[k]);
                assert(lp.contains(lp[k]));
            } else if k >= lp.len() + 2 {
                assert(fd[k - lp.len() - 2] == url[k]);
                lemma_fragment_chars(start, end, k - lp.len() - 2);
            }
        }
    }
    assert(base[0] == 'h') by {
        assert(base.take(8)[0] == 'h');
    }
    assert(url[0] == 'h');
    assert(url.last() == fd.last());
    law_markdown_link_reads_as_target(label, url);
    law_permalink_roundtrip(base, revision, path, start, end);
}


/// The text `path:N` that names a line of a file.
pub open spec fn path_with_line(path: Seq<char>, line: u32) -> Seq<char> {
    path + seq![':'] + decimal(line as nat)
}

/// The last occurrence of a character.
proof fn lemma_rfind_char(s: Seq<char>, c: char, k: int, upto: int)
    requires
        0 <= k <= upto < s.len(),
        s[k] == c,
        forall|j: int| k < j < s.len() ==> s[j] != c,
    ensures
        rfind_upto(s, seq![c], upto) == Some(k),
    decreases upto - k,
{
    lemma_matches_at_char(s, c, upto);
    if upto > k {
        lemma_rfind_char(s, c, k, upto - 1);
    }
}

/// Text that starts like a `file://` URL cannot have a digit or a second
/// `:` within its first seven characters.
proof fn lemma_not_file_url(path: Seq<char>, line: u32)
    requires
        path.len() > 0,
        !has_prefix(path, "file://"@),
    ensures
        strip_prefix(path_with_line(path, line), "file://"@) is None,
{
    reveal_strlit("file://");
    lemma_decimal_roundtrip(line);
    let t = path_with_line(path, line);
    let fu = "file://"@;
    assert(fu =~= seq!['f', 'i', 'l', 'e', ':', '/', '/']);
    let ds = decimal(line as nat);
    if has_prefix(t, fu) {
        if path.len() >= 7 {
            assert(path.take(7) =~= t.take(7));
        } else {
            let m = path.len() as int;
            assert(t.take(7)[m] == t[m]);
            assert(t[m] == ':');
            assert(t.take(7)[m + 1] == t[m + 1]);
            if m + 1 < 7 {
                assert(t[m + 1] == ds[0]);
                assert(is_digit(ds[0]));
            }
        }
    }
}

/// A character that can follow a path in a line reference: a digit, `#`,
/// `L`, `-` or `:`.
pub open spec fn line_suffix_char(c: char) -> bool {
    is_digit(c) || c == '#' || c == 'L' || c == '-' || c == ':'
}

/// `github.com` cannot overlap a line reference after a path.
proof fn lemma_no_host_with_suffix(path: Seq<char>, suffix: Seq<char>)
    requires
        !contains(path, "github.com"@),
        forall|i: int| 0 <= i < suffix.len() ==> line_suffix_char(#[trigger] suffix[i]),
    ensures
        !contains(path + suffix, "github.com"@),
{
    reveal_strlit("github.com");
    let t = path + suffix;
    let gh = "github.com"@;
    assert(gh =~= seq!['g', 'i', 't', 'h', 'u', 'b', '.', 'c', 'o', 'm']);
    if contains(t, gh) {
        lemma_find_match(t, gh);
        let j = find(t, gh)->0;
        lemma_matches_at_chars(t, gh, j);
        if j + 10 <= path.len() {
            lemma_matches_at_chars(path, gh, j);
            assert forall|k: int| 0 <= k < 10 implies path[j + k] == gh[k] by {
                assert(t[j + k] == path[j + k]);
            }
            lemma_match_found(path, gh, j);
        } else {
            let k = if j >= path.len() {
                0
            } else {
                path.len() - j
            };
            assert(t[j + k] == suffix[j + k - path.len()]);
            assert(line_suffix_char(suffix[j + k - path.len()]));
            assert(gh[k] == t[j + k]);
        }
    }
}

/// `path:N` reads back as the path, relative or absolute, at line `N`.
pub proof fn law_path_with_line_roundtrip(path: Seq<char>, line: u32)
    requires
        path.len() > 0,
        bare_target(path),
        !path.contains('#'),
        !contains(path, "github.com"@),
        !has_prefix(path, "file://"@),
    ensures
        parse_link(path_with_line(path, line)) == Some(
            JumpRequestView {
                kind: if is_absolute_path(path) {
                    JumpLinkKind::Absolute
                } else {
                    JumpLinkKind::Relative
                },
                path: path,
                line: Some(line),
                end_line: None,
                revision: None,
                repo_name: None,
            },
        ),
{
    lemma_decimal_roundtrip(line);
    let ds = decimal(line as nat);
    let t = path_with_line(path, line);
    let m = path.len() as int;
    assert forall|j: int| m < j < t.len() implies is_digit(#[trigger] t[j]) by {
        assert(t[j] == ds[j - m - 1]);
    }
    assert(t.last() == ds.last());
    assert(is_digit(ds[ds.len() - 1]));
    assert(t[0] == path[0]);
    assert(!t.contains(']') && !t.contains(')') && !t.contains('#')) by {
        if t.contains(']') || t.contains(')') || t.contains('#') {
            let k = choose|k: int| 0 <= k < t.len() && (t[k] == ']' || t[k] == ')' || t[k] == '#');
            if k < m {
                assert(path[k] == t[k]);
                assert(path.contains(path[k]));
            } else if k == m {
                assert(t[k] == ':');
            } else {
                assert(is_digit(t[k]));
            }
        }
    }
    assert(bare_target(t));
    lemma_bare_target(t);
    assert forall|i: int| 0 <= i < t.skip(m).len() implies line_suffix_char(#[trigger] t.skip(m)[i]) by {
        if i > 0 {
            assert(is_digit(t[m + i]));
        }
    }
    assert(t =~= path + t.skip(m));
    lemma_no_host_with_suffix(path, t.skip(m));
    assert(github_request(t) is None);
    lemma_not_file_url(path, line);
    assert(file_url_request(t) is None);
    lemma_find_char_absent(t, '#');
    assert(t[m] == ':');
    assert forall|j: int| m < j < t.len() implies t[j] != ':' by {
        assert(is_digit(t[j]));
    }
    lemma_rfind_char(t, ':', m, t.len() - 1);
    assert(rfind(t, seq![':']) == Some(m));
    assert(t.take(m) =~= path);
    assert(t.skip(m + 1) =~= ds);
    assert(rsplit_once(t, seq![':']) == Some((path, ds)));
    assert(!seq!['L', 'l'].contains(ds[0])) by {
        lemma_not_in_pair(ds[0], 'L', 'l');
    }
    assert(trim_start_by(ds, seq!['L', 'l']) == ds);
    assert(line_like(ds)) by {
        assert forall|i: int| 0 <= i < ds.len() implies (is_digit(#[trigger] ds[i]) || ds[i] == '-'
            || ds[i] == '#') by {
            assert(t[m + 1 + i] == ds[i]);
        }
    }
    assert(path_and_line(t) == (path, Some(ds)));
    lemma_not_in_one(ds[0], '#');
    assert(trim_start_by(ds, seq!['#']) == ds);
    lemma_trim_ws_id(ds);
    assert(!ds.contains('-')) by {
        if ds.contains('-') {
            let k = choose|k: int| 0 <= k < ds.len() && ds[k] == '-';
            assert(is_digit(ds[k]));
        }
    }
    lemma_find_char_absent(ds, '-');
    assert(line_fragment(ds) == (Some(line), None::<u32>));
}

/// The base URL `https://github.com/<owner>/<repo>` of a GitHub repository.
pub open spec fn github_base(owner: Seq<char>, repo: Seq<char>) -> Seq<char> {
    "https://"@ + "github.com/"@ + owner + seq!['/'] + repo
}

/// `github.com/` does not start within `owner/repo/` when neither name
/// holds `/` or ends with `github.com`.
proof fn lemma_no_host_in_names(owner: Seq<char>, repo: Seq<char>, tail: Seq<char>, j: int)
    requires
        !owner.contains('/') && !repo.contains('/'),
        !has_suffix(owner, "github.com"@) && !has_suffix(repo, "github.com"@),
        0 <= j < owner.len() + repo.len() + 2,
    ensures
        !matches_at(owner + seq!['/'] + repo + seq!['/'] + tail, "github.com/"@, j),
{
    reveal_strlit("github.com/");
    reveal_strlit("github.com");
    let host = "github.com/"@;
    assert(host =~= seq!['g', 'i', 't', 'h', 'u', 'b', '.', 'c', 'o', 'm', '/']);
    assert("github.com"@ =~= host.take(10));
    let r = owner + seq!['/'] + repo + seq!['/'] + tail;
    let o = owner.len() as int;
    let e = o + 1 + repo.len();
    assert(r[o] == '/');
    assert(r[e] == '/');
    if matches_at(r, host, j) {
        lemma_matches_at_chars(r, host, j);
        assert(r[j + 10] == host[10]);
        if j < o {
            if j + 10 < o {
                assert(r[j + 10] == owner[j + 10]);
                assert(owner.contains('/'));
            } else if j + 10 > o {
                assert(host[o - j] != '/');
            } else {
                assert(owner.skip(o - 10) =~= host.take(10)) by {
                    assert forall|t: int| 0 <= t < 10 implies owner.skip(o - 10)[t] == host.take(10)[t] by {
                        assert(r[j + t] == owner[j + t]);
                        assert(host.take(10)[t] == host[t]);
                    }
                }
            }
        } else if j == o {
            assert(r[j + 0] == host[0]);
        } else if j < e {
            if j + 10 < e {
                assert(r[j + 10] == repo[j + 10 - o - 1]);
                assert(repo.contains('/'));
            } else if j + 10 > e {
                assert(host[e - j] != '/');
            } else {
                assert(repo.skip(repo.len() - 10) =~= host.take(10)) by {
                    assert forall|t: int| 0 <= t < 10 implies repo.skip(repo.len() - 10)[t] == host.take(10)[t] by {
                        assert(r[j + t] == repo[j + t - o - 1]);
                        assert(host.take(10)[t] == host[t]);
                    }
                }
            }
        } else {
            assert(r[j + 0] == host[0]);
        }
    }
}

/// The host of an https URL on `github.com` is found right after the scheme.
#[verifier::spinoff_prover]
#[verifier::rlimit(40)]
proof fn lemma_first_host(rest: Seq<char>)
    ensures
        find("https://"@ + ("github.com/"@ + rest), "github.com/"@) == Some(8int),
{
    reveal_strlit("github.com/");
    reveal_strlit("https://");
    let host = "github.com/"@;
    let scheme = "https://"@;
    assert(host =~= seq!['g', 'i', 't', 'h', 'u', 'b', '.', 'c', 'o', 'm', '/']);
    assert(scheme =~= seq!['h', 't', 't', 'p', 's', ':', '/', '/']);
    let x = scheme + (host + rest);
    assert forall|j: int| 0 <= j < 8 implies !matches_at(x, host, j) by {
        if matches_at(x, host, j) {
            assert(x.subrange(j, j + 11)[0] == x[j]);
            assert(x[j] == scheme[j]);
        }
    }
    lemma_matches_at_shift(scheme, host + rest, host, 0);
    assert(matches_at(host + rest, host, 0)) by {
        assert((host + rest).subrange(0, 11) =~= host);
    }
    lemma_find_first(x, host, 8);
}

/// The text after the first `github.com/` of a link part on a GitHub base.
proof fn lemma_after_host(owner: Seq<char>, repo: Seq<char>, tail: Seq<char>)
    ensures
        split_nth(github_base(owner, repo) + seq!['/'] + tail, "github.com/"@, 1) == split_nth(
            owner + seq!['/'] + repo + seq!['/'] + tail,
            "github.com/"@,
            0,
        ),
{
    reveal_strlit("github.com/");
    reveal_strlit("https://");
    let host = "github.com/"@;
    let scheme = "https://"@;
    let r = owner + seq!['/'] + repo + seq!['/'] + tail;
    let x = github_base(owner, repo) + seq!['/'] + tail;
    assert(x =~= scheme + (host + r));
    lemma_first_host(r);
    assert(x.skip(19) =~= r);
}

/// What follows the host starts with `owner/repo/`.
proof fn lemma_after_host_prefix(owner: Seq<char>, repo: Seq<char>, tail: Seq<char>)
    requires
        !owner.contains('/') && !repo.contains('/'),
        !has_suffix(owner, "github.com"@) && !has_suffix(repo, "github.com"@),
    ensures
        split_nth(owner + seq!['/'] + repo + seq!['/'] + tail, "github.com/"@, 0) matches Some(after)
            && after.len() >= owner.len() + repo.len() + 2 && after.take((owner.len() + repo.len() + 2) as int)
            == owner + seq!['/'] + repo + seq!['/'],
{
    let host = "github.com/"@;
    let r = owner + seq!['/'] + repo + seq!['/'] + tail;
    let m = (owner.len() + repo.len() + 2) as int;
    assert forall|j: int| 0 <= j < m implies !matches_at(r, host, j) by {
        lemma_no_host_in_names(owner, repo, tail, j);
    }
    lemma_find_match(r, host);
    let after = match find(r, host) {
        Some(i) => r.take(i),
        None => r,
    };
    assert(after.len() >= m);
    assert(after.take(m) =~= owner + seq!['/'] + repo + seq!['/']);
}

/// The second `/` piece of `owner/repo/..` is the repository name.
proof fn lemma_second_piece(owner: Seq<char>, repo: Seq<char>, after: Seq<char>)
    requires
        !owner.contains('/') && !repo.contains('/'),
        after.len() >= owner.len() + repo.len() + 2,
        after.take((owner.len() + repo.len() + 2) as int) == owner + seq!['/'] + repo + seq!['/'],
    ensures
        split_nth(after, seq!['/'], 1) == Some(repo),
{
    let o = owner.len() as int;
    let p = owner + seq!['/'] + repo + seq!['/'];
    assert forall|t: int| 0 <= t < p.len() implies after[t] == p[t] by {
        assert(after.take(p.len() as int)[t] == after[t]);
    }
    assert forall|t: int| 0 <= t < o implies after[t] != '/' by {
        assert(after[t] == owner[t]);
        if owner[t] == '/' {
            assert(owner.contains('/'));
        }
    }
    assert(after[o] == '/');
    lemma_find_char(after, '/', o);
    let a2 = after.skip(o + 1);
    assert forall|t: int| 0 <= t < repo.len() implies a2[t] != '/' by {
        assert(a2[t] == after[o + 1 + t]);
        assert(p[o + 1 + t] == repo[t]);
        if repo[t] == '/' {
            assert(repo.contains('/'));
        }
    }
    assert(a2[repo.len() as int] == after[o + 1 + repo.len()]);
    assert(a2[repo.len() as int] == '/');
    lemma_find_char(a2, '/', repo.len() as int);
    assert(split_nth(a2, seq!['/'], 0) == Some(a2.take(repo.len() as int)));
    assert(a2.take(repo.len() as int) =~= repo) by {
        assert forall|t: int| 0 <= t < repo.len() implies a2.take(repo.len() as int)[t] == repo[t] by {
            assert(a2[t] == after[o + 1 + t]);
            assert(p[o + 1 + t] == repo[t]);
        }
    }
}

/// The repository name read from a GitHub link part: the second `/` piece of
/// what follows the first `github.com/`.
proof fn lemma_repo_name_of(owner: Seq<char>, repo: Seq<char>, tail: Seq<char>)
    requires
        !owner.contains('/') && !repo.contains('/'),
        !has_suffix(owner, "github.com"@) && !has_suffix(repo, "github.com"@),
    ensures
        split_nth(github_base(owner, repo) + seq!['/'] + tail, "github.com/"@, 1) matches Some(after)
            && split_nth(after, seq!['/'], 1) == Some(repo),
{
    lemma_after_host(owner, repo, tail);
    lemma_after_host_prefix(owner, repo, tail);
    let after = split_nth(owner + seq!['/'] + repo + seq!['/'] + tail, "github.com/"@, 0)->0;
    lemma_second_piece(owner, repo, after);
}

/// A permalink on a `https://github.com/<owner>/<repo>` base reads back with
/// the repository name, unless a name ends in `github.com` (which hides the
/// host's end).
pub proof fn law_permalink_repo_name(
    owner: Seq<char>,
    repo: Seq<char>,
    revision: Seq<char>,
    path: Seq<char>,
    start: u32,
    end: Option<u32>,
)
    requires
        permalink_parts_ok(github_base(owner, repo), revision, path),
        !owner.contains('/') && !repo.contains('/'),
        !has_suffix(owner, "github.com"@) && !has_suffix(repo, "github.com"@),
    ensures
        parse_link(github_url(github_base(owner, repo), revision, path, start, end)) matches Some(req)
            && req.kind == JumpLinkKind::Github && req.repo_name == Some(repo),
{
    reveal_strlit("/blob/");
    let base = github_base(owner, repo);
    lemma_target_is_url(base, revision, path, start, end);
    lemma_markers_present(base, revision, path, start, end);
    lemma_fragment_split(base, revision, path, start, end);
    lemma_blob_split(base, revision, path);
    lemma_revision_split(revision, path);
    let tail = "blob/"@ + revision + seq!['/'] + path;
    reveal_strlit("blob/");
    assert(link_part_of(base, revision, path) =~= base + seq!['/'] + tail);
    lemma_repo_name_of(owner, repo, tail);
}

/// The digits after `#L` end in a digit.
proof fn lemma_fragment_digits_end(start: u32, end: Option<u32>)
    ensures
        fragment_digits(start, end).len() > 0,
        is_digit(fragment_digits(start, end)[0]),
        is_digit(fragment_digits(start, end).last()),
{
    lemma_decimal_roundtrip(start);
    let ds = decimal(start as nat);
    let fd = fragment_digits(start, end);
    assert(fd[0] == ds[0]);
    assert(is_digit(ds[0]));
    match kept_end(start, end) {
        Some(e) => {
            lemma_decimal_roundtrip(e);
            let de = decimal(e as nat);
            assert(fd.last() == de.last());
            assert(is_digit(de[de.len() - 1]));
        },
        None => {
            assert(is_digit(ds[ds.len() - 1]));
        },
    }
}

/// A path followed by the line fragment the library writes (`#L<start>` or
/// `#L<start>-L<end>`) reads back as that path with those lines.
pub proof fn law_path_with_fragment_roundtrip(path: Seq<char>, start: u32, end: Option<u32>)
    requires
        path.len() > 0,
        bare_target(path),
        !path.contains('#'),
        !contains(path, "github.com"@),
        !has_prefix(path, "file://"@),
    ensures
        parse_link(path + line_fragment_text(start, end)) == Some(
            JumpRequestView {
                kind: if is_absolute_path(path) {
                    JumpLinkKind::Absolute
                } else {
                    JumpLinkKind::Relative
                },
                path: path,
                line: Some(start),
                end_line: kept_end(start, end),
                revision: None,
                repo_name: None,
            },
        ),
{
    lemma_fragment_shape(start, end);
    lemma_fragment_digits_end(start, end);
    lemma_read_fragment(start, end);
    let fd = fragment_digits(start, end);
    let frag = line_fragment_text(start, end);
    let t = path + frag;
    let m = path.len() as int;
    assert(frag == seq!['#', 'L'] + fd);
    assert forall|i: int| 0 <= i < frag.len() implies line_suffix_char(#[trigger] frag[i]) by {
        if i >= 2 {
            assert(frag[i] == fd[i - 2]);
            lemma_fragment_chars(start, end, i - 2);
        }
    }
    assert(t.last() == fd.last());
    assert(t[0] == path[0]);
    assert(!t.contains(']') && !t.contains(')')) by {
        if t.contains(']') || t.contains(')') {
            let k = choose|k: int| 0 <= k < t.len() && (t[k] == ']' || t[k] == ')');
            if k < m {
                assert(path[k] == t[k]);
                assert(path.contains(path[k]));
            } else {
                assert(t[k] == frag[k - m]);
                assert(line_suffix_char(frag[k - m]));
            }
        }
    }
    assert(bare_target(t));
    lemma_bare_target(t);
    lemma_no_host_with_suffix(path, frag);
    assert(github_request(t) is None);
    reveal_strlit("file://");
    assert("file://"@ =~= seq!['f', 'i', 'l', 'e', ':', '/', '/']);
    assert(strip_prefix(t, "file://"@) is None) by {
        if has_prefix(t, "file://"@) {
            if m >= 7 {
                assert(path.take(7) =~= t.take(7));
            } else {
                assert(t.take(7)[m] == t[m]);
                assert(t[m] == '#');
            }
        }
    }
    assert(file_url_request(t) is None);
    assert forall|j: int| 0 <= j < m implies t[j] != '#' by {
        assert(t[j] == path[j]);
        if path[j] == '#' {
            assert(path.contains('#'));
        }
    }
    assert(t[m] == '#');
    lemma_find_char(t, '#', m);
    assert(t.take(m) =~= path);
    assert(t.skip(m + 1) =~= seq!['L'] + fd);
    assert(path_and_line(t) == (path, Some(seq!['L'] + fd)));
}
} // verus!
