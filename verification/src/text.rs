//! Character-level text operations with their specifications.
//!
//! Every operation here works on sequences of `char` and is specified by a
//! spec function over `Seq<char>`, so that the parsers built on top of them
//! can state their results exactly.
use vstd::prelude::*;

verus! {

/// Unicode `White_Space`, the property behind `char::is_whitespace`.
pub open spec fn is_ws(c: char) -> bool {
    ||| ('\u{9}' <= c && c <= '\u{d}')
    ||| c == ' '
    ||| c == '\u{85}'
    ||| c == '\u{a0}'
    ||| c == '\u{1680}'
    ||| ('\u{2000}' <= c && c <= '\u{200a}')
    ||| c == '\u{2028}'
    ||| c == '\u{2029}'
    ||| c == '\u{202f}'
    ||| c == '\u{205f}'
    ||| c == '\u{3000}'
}

/// An ASCII decimal digit.
pub open spec fn is_digit(c: char) -> bool {
    '0' <= c && c <= '9'
}

/// `s` with every leading character that is in `set` removed.
pub open spec fn trim_start_by(s: Seq<char>, set: Seq<char>) -> Seq<char>
    decreases s.len(),
{
    if s.len() > 0 && set.contains(s[0]) {
        trim_start_by(s.drop_first(), set)
    } else {
        s
    }
}

/// `s` with every trailing character that is in `set` removed.
pub open spec fn trim_end_by(s: Seq<char>, set: Seq<char>) -> Seq<char>
    decreases s.len(),
{
    if s.len() > 0 && set.contains(s.last()) {
        trim_end_by(s.drop_last(), set)
    } else {
        s
    }
}

/// `s` with the characters of `set` removed at both ends.
pub open spec fn trim_by(s: Seq<char>, set: Seq<char>) -> Seq<char> {
    trim_end_by(trim_start_by(s, set), set)
}

/// `s` without leading whitespace.
pub open spec fn trim_ws_start(s: Seq<char>) -> Seq<char>
    decreases s.len(),
{
    if s.len() > 0 && is_ws(s[0]) {
        trim_ws_start(s.drop_first())
    } else {
        s
    }
}

/// `s` without trailing whitespace.
pub open spec fn trim_ws_end(s: Seq<char>) -> Seq<char>
    decreases s.len(),
{
    if s.len() > 0 && is_ws(s.last()) {
        trim_ws_end(s.drop_last())
    } else {
        s
    }
}

/// `s` without whitespace at either end (`str::trim`).
pub open spec fn trim_ws(s: Seq<char>) -> Seq<char> {
    trim_ws_end(trim_ws_start(s))
}

/// `pat` occurs in `s` starting at index `i`.
pub open spec fn matches_at(s: Seq<char>, pat: Seq<char>, i: int) -> bool {
    0 <= i && i + pat.len() <= s.len() && s.subrange(i, i + pat.len()) == pat
}

/// The first index at or after `i` where `pat` occurs in `s`.
pub open spec fn find_from(s: Seq<char>, pat: Seq<char>, i: int) -> Option<int>
    decreases s.len() + 1 - i,
{
    if i < 0 || i + pat.len() > s.len() {
        None
    } else if matches_at(s, pat, i) {
        Some(i)
    } else {
        find_from(s, pat, i + 1)
    }
}

/// The first index where `pat` occurs in `s` (`str::find`).
pub open spec fn find(s: Seq<char>, pat: Seq<char>) -> Option<int> {
    find_from(s, pat, 0)
}

/// The last index at or before `k` where `pat` occurs in `s`.
pub open spec fn rfind_upto(s: Seq<char>, pat: Seq<char>, k: int) -> Option<int>
    decreases k + 1,
{
    if k < 0 {
        None
    } else if matches_at(s, pat, k) {
        Some(k)
    } else {
        rfind_upto(s, pat, k - 1)
    }
}

/// The last index where `pat` occurs in `s` (`str::rfind`).
pub open spec fn rfind(s: Seq<char>, pat: Seq<char>) -> Option<int> {
    rfind_upto(s, pat, s.len() - pat.len())
}

/// `pat` occurs somewhere in `s`.
pub open spec fn contains(s: Seq<char>, pat: Seq<char>) -> bool {
    find(s, pat) is Some
}

/// The text before and after the first occurrence of `pat` (`str::split_once`).
pub open spec fn split_once(s: Seq<char>, pat: Seq<char>) -> Option<(Seq<char>, Seq<char>)> {
    match find(s, pat) {
        Some(i) => Some((s.take(i), s.skip(i + pat.len()))),
        None => None,
    }
}

/// The text before and after the last occurrence of `pat` (`str::rsplit_once`).
pub open spec fn rsplit_once(s: Seq<char>, pat: Seq<char>) -> Option<(Seq<char>, Seq<char>)> {
    match rfind(s, pat) {
        Some(i) => Some((s.take(i), s.skip(i + pat.len()))),
        None => None,
    }
}

/// `s` starts with `p`.
pub open spec fn has_prefix(s: Seq<char>, p: Seq<char>) -> bool {
    p.len() <= s.len() && s.take(p.len() as int) == p
}

/// `s` ends with `p`.
pub open spec fn has_suffix(s: Seq<char>, p: Seq<char>) -> bool {
    p.len() <= s.len() && s.skip(s.len() - p.len()) == p
}

/// `str::strip_prefix`.
pub open spec fn strip_prefix(s: Seq<char>, p: Seq<char>) -> Option<Seq<char>> {
    if has_prefix(s, p) {
        Some(s.skip(p.len() as int))
    } else {
        None
    }
}

/// `str::strip_suffix`.
pub open spec fn strip_suffix(s: Seq<char>, p: Seq<char>) -> Option<Seq<char>> {
    if has_suffix(s, p) {
        Some(s.take(s.len() - p.len()))
    } else {
        None
    }
}

/// The piece of `s` with index `n` when `s` is split at each occurrence of `pat`
/// (`s.split(pat).nth(n)`), for a non-empty `pat`.
pub open spec fn split_nth(s: Seq<char>, pat: Seq<char>, n: nat) -> Option<Seq<char>>
    decreases n,
{
    match find(s, pat) {
        None => if n == 0 {
            Some(s)
        } else {
            None
        },
        Some(i) => if n == 0 {
            Some(s.take(i))
        } else {
            split_nth(s.skip(i + pat.len()), pat, (n - 1) as nat)
        },
    }
}

/// The text before the first occurrence of `pat`, or all of `s`
/// (`s.split(pat).next()`).
pub open spec fn before_first(s: Seq<char>, pat: Seq<char>) -> Seq<char> {
    match find(s, pat) {
        Some(i) => s.take(i),
        None => s,
    }
}

/// The pieces of `s` separated by `c` (`str::split` on one character); never empty.
pub open spec fn split_on(s: Seq<char>, c: char) -> Seq<Seq<char>>
    decreases s.len(),
{
    if s.len() == 0 {
        seq![Seq::empty()]
    } else {
        let init = split_on(s.drop_last(), c);
        if s.last() == c {
            init.push(Seq::empty())
        } else {
            init.update(init.len() - 1, init.last().push(s.last()))
        }
    }
}

/// One line of `str::lines`: a trailing carriage return is dropped.
pub open spec fn strip_cr(line: Seq<char>) -> Seq<char> {
    if line.len() > 0 && line.last() == '\r' {
        line.drop_last()
    } else {
        line
    }
}

/// The lines of `s` (`str::lines`): split at `\n`, a final empty piece
/// omitted, and a `\r` dropped before each `\n`.
pub open spec fn lines(s: Seq<char>) -> Seq<Seq<char>> {
    let pieces = split_on(s, '\n');
    let n = pieces.len();
    let ended = Seq::new((n - 1) as nat, |i: int| strip_cr(pieces[i]));
    if pieces.last().len() == 0 {
        ended
    } else {
        ended.push(pieces.last())
    }
}

/// The words of `s` (`str::split_whitespace`).
pub open spec fn words(s: Seq<char>) -> Seq<Seq<char>>
    decreases s.len(),
{
    if s.len() == 0 {
        Seq::empty()
    } else {
        let init = words(s.drop_last());
        if is_ws(s.last()) {
            init
        } else if s.len() >= 2 && !is_ws(s[s.len() - 2]) {
            init.update(init.len() - 1, init.last().push(s.last()))
        } else {
            init.push(seq![s.last()])
        }
    }
}

/// The word of `s` with index `k`, if there is one (`split_whitespace().nth(k)`).
pub open spec fn word(s: Seq<char>, k: int) -> Option<Seq<char>> {
    if 0 <= k < words(s).len() {
        Some(words(s)[k])
    } else {
        None
    }
}

/// The characters of a string slice, in order.
pub fn chars_of(s: &str) -> (r: Vec<char>)
    ensures
        r@ == s@,
{
    let mut r: Vec<char> = Vec::new();
    for c in it: s.chars()
        invariant
            r@ == it.seq().take(it.index() as int),
            it.seq() == s@,
    {
        r.push(c);
    }
    r
}

/// Collects the characters into a `String` with `Iterator::collect` (std's
/// `FromIterator<&char>` for `String`); trusted to give a string that holds
/// exactly these characters, in order, as std documents.
#[verifier::external_body]
pub(crate) fn string_of(chars: &[char]) -> (r: String)
    ensures
        r@ == chars@,
{
    chars.iter().collect()
}

/// A copy of `s[lo..hi]`.
pub fn slice_chars(s: &[char], lo: usize, hi: usize) -> (r: Vec<char>)
    requires
        lo <= hi <= s@.len(),
    ensures
        r@ == s@.subrange(lo as int, hi as int),
{
    let mut r: Vec<char> = Vec::new();
    let mut i: usize = lo;
    while i < hi
        invariant
            lo <= i <= hi <= s@.len(),
            r@ == s@.subrange(lo as int, i as int),
        decreases hi - i,
    {
        r.push(s[i]);
        i += 1;
    }
    r
}

/// `c` is one of `set`.
pub fn in_set(c: char, set: &[char]) -> (r: bool)
    ensures
        r == set@.contains(c),
{
    let mut i: usize = 0;
    while i < set.len()
        invariant
            i <= set@.len(),
            forall|j: int| 0 <= j < i ==> set@[j] != c,
        decreases set.len() - i,
    {
        if set[i] == c {
            assert(set@[i as int] == c);
            return true;
        }
        i += 1;
    }
    false
}

/// Exec form of `is_ws` (`char::is_whitespace`).
pub fn is_whitespace(c: char) -> (r: bool)
    ensures
        r == is_ws(c),
{
    ('\u{9}' <= c && c <= '\u{d}') || c == ' ' || c == '\u{85}' || c == '\u{a0}' || c
        == '\u{1680}' || ('\u{2000}' <= c && c <= '\u{200a}') || c == '\u{2028}' || c
        == '\u{2029}' || c == '\u{202f}' || c == '\u{205f}' || c == '\u{3000}'
}

proof fn lemma_trim_start_by_skip(s: Seq<char>, set: Seq<char>, i: int)
    requires
        0 <= i <= s.len(),
        forall|j: int| 0 <= j < i ==> set.contains(s[j]),
    ensures
        trim_start_by(s, set) == trim_start_by(s.skip(i), set),
    decreases i,
{
    if i > 0 {
        assert(s.skip(1) == s.drop_first());
        lemma_trim_start_by_skip(s.drop_first(), set, i - 1);
        assert(s.drop_first().skip(i - 1) =~= s.skip(i));
    } else {
        assert(s.skip(0) =~= s);
    }
}

proof fn lemma_trim_end_by_take(s: Seq<char>, set: Seq<char>, i: int)
    requires
        0 <= i <= s.len(),
        forall|j: int| i <= j < s.len() ==> set.contains(s[j]),
    ensures
        trim_end_by(s, set) == trim_end_by(s.take(i), set),
    decreases s.len() - i,
{
    if i < s.len() {
        lemma_trim_end_by_take(s.drop_last(), set, i);
        assert(s.drop_last().take(i) =~= s.take(i));
    } else {
        assert(s.take(i) =~= s);
    }
}

proof fn lemma_trim_ws_start_skip(s: Seq<char>, i: int)
    requires
        0 <= i <= s.len(),
        forall|j: int| 0 <= j < i ==> is_ws(s[j]),
    ensures
        trim_ws_start(s) == trim_ws_start(s.skip(i)),
    decreases i,
{
    if i > 0 {
        lemma_trim_ws_start_skip(s.drop_first(), i - 1);
        assert(s.drop_first().skip(i - 1) =~= s.skip(i));
    } else {
        assert(s.skip(0) =~= s);
    }
}

proof fn lemma_trim_ws_end_take(s: Seq<char>, i: int)
    requires
        0 <= i <= s.len(),
        forall|j: int| i <= j < s.len() ==> is_ws(s[j]),
    ensures
        trim_ws_end(s) == trim_ws_end(s.take(i)),
    decreases s.len() - i,
{
    if i < s.len() {
        lemma_trim_ws_end_take(s.drop_last(), i);
        assert(s.drop_last().take(i) =~= s.take(i));
    } else {
        assert(s.take(i) =~= s);
    }
}

/// `str::trim_start_matches` with a set of characters.
pub fn trim_start_set(s: &[char], set: &[char]) -> (r: Vec<char>)
    ensures
        r@ == trim_start_by(s@, set@),
{
    let mut i: usize = 0;
    while i < s.len() && in_set(s[i], set)
        invariant
            i <= s@.len(),
            forall|j: int| 0 <= j < i ==> set@.contains(s@[j]),
        decreases s.len() - i,
    {
        i += 1;
    }
    proof {
        lemma_trim_start_by_skip(s@, set@, i as int);
        assert(s@.skip(i as int) =~= s@.subrange(i as int, s@.len() as int));
    }
    slice_chars(s, i, s.len())
}

/// `str::trim_end_matches` with a set of characters.
pub fn trim_end_set(s: &[char], set: &[char]) -> (r: Vec<char>)
    ensures
        r@ == trim_end_by(s@, set@),
{
    let mut i: usize = s.len();
    while i > 0 && in_set(s[i - 1], set)
        invariant
            i <= s@.len(),
            forall|j: int| i <= j < s@.len() ==> set@.contains(s@[j]),
        decreases i,
    {
        i -= 1;
    }
    proof {
        lemma_trim_end_by_take(s@, set@, i as int);
        assert(s@.take(i as int) =~= s@.subrange(0, i as int));
    }
    slice_chars(s, 0, i)
}

/// `str::trim_matches` with a set of characters.
pub fn trim_set(s: &[char], set: &[char]) -> (r: Vec<char>)
    ensures
        r@ == trim_by(s@, set@),
{
    let a = trim_start_set(s, set);
    trim_end_set(&a, set)
}

/// `str::trim`.
pub fn trim(s: &[char]) -> (r: Vec<char>)
    ensures
        r@ == trim_ws(s@),
{
    let mut i: usize = 0;
    while i < s.len() && is_whitespace(s[i])
        invariant
            i <= s@.len(),
            forall|j: int| 0 <= j < i ==> is_ws(s@[j]),
        decreases s.len() - i,
    {
        i += 1;
    }
    proof {
        lemma_trim_ws_start_skip(s@, i as int);
    }
    let a = slice_chars(s, i, s.len());
    assert(a@ =~= s@.skip(i as int));
    let mut k: usize = a.len();
    while k > 0 && is_whitespace(a[k - 1])
        invariant
            k <= a@.len(),
            forall|j: int| k <= j < a@.len() ==> is_ws(a@[j]),
        decreases k,
    {
        k -= 1;
    }
    proof {
        lemma_trim_ws_end_take(a@, k as int);
        assert(a@.take(k as int) =~= a@.subrange(0, k as int));
    }
    slice_chars(&a, 0, k)
}

/// Whether `pat` occurs in `s` at index `i`.
pub fn match_at(s: &[char], pat: &[char], i: usize) -> (r: bool)
    ensures
        r == matches_at(s@, pat@, i as int),
{
    if i > s.len() || pat.len() > s.len() - i {
        return false;
    }
    let mut t: usize = 0;
    while t < pat.len()
        invariant
            i + pat@.len() <= s@.len(),
            s@.len() == s.len(),
            t <= pat@.len(),
            forall|u: int| 0 <= u < t ==> s@[i + u] == pat@[u],
        decreases pat.len() - t,
    {
        assert(i + t < s@.len());
        if s[i + t] != pat[t] {
            assert(s@.subrange(i as int, i + pat@.len())[t as int] != pat@[t as int]);
            return false;
        }
        t += 1;
    }
    assert(s@.subrange(i as int, i + pat@.len()) =~= pat@);
    true
}

/// `str::find`: the first index where `pat` occurs.
pub fn find_exec(s: &[char], pat: &[char]) -> (r: Option<usize>)
    ensures
        r matches Some(i) ==> find(s@, pat@) == Some(i as int),
        r is None ==> find(s@, pat@) is None,
{
    if pat.len() > s.len() {
        return None;
    }
    let last: usize = s.len() - pat.len();
    let mut i: usize = 0;
    loop
        invariant
            last + pat@.len() == s@.len(),
            i <= last,
            find(s@, pat@) == find_from(s@, pat@, i as int),
        decreases last - i,
    {
        if match_at(s, pat, i) {
            return Some(i);
        }
        if i == last {
            assert(find_from(s@, pat@, i + 1) is None);
            return None;
        }
        i += 1;
    }
}

/// `str::rfind`: the last index where `pat` occurs.
pub fn rfind_exec(s: &[char], pat: &[char]) -> (r: Option<usize>)
    ensures
        r matches Some(i) ==> rfind(s@, pat@) == Some(i as int),
        r is None ==> rfind(s@, pat@) is None,
{
    if pat.len() > s.len() {
        return None;
    }
    let mut k: usize = s.len() - pat.len();
    loop
        invariant
            k + pat@.len() <= s@.len(),
            rfind(s@, pat@) == rfind_upto(s@, pat@, k as int),
        decreases k,
    {
        if match_at(s, pat, k) {
            return Some(k);
        }
        if k == 0 {
            assert(rfind_upto(s@, pat@, -1) is None);
            return None;
        }
        k -= 1;
    }
}

proof fn lemma_find_from_bounds(s: Seq<char>, pat: Seq<char>, i: int)
    ensures
        find_from(s, pat, i) matches Some(j) ==> i <= j && matches_at(s, pat, j),
    decreases s.len() + 1 - i,
{
    if !(i < 0 || i + pat.len() > s.len()) && !matches_at(s, pat, i) {
        lemma_find_from_bounds(s, pat, i + 1);
    }
}

/// A found index is a real occurrence.
pub proof fn lemma_find_match(s: Seq<char>, pat: Seq<char>)
    ensures
        find(s, pat) matches Some(j) ==> 0 <= j && j + pat.len() <= s.len() && matches_at(s, pat, j),
{
    lemma_find_from_bounds(s, pat, 0);
}

proof fn lemma_rfind_upto_bounds(s: Seq<char>, pat: Seq<char>, k: int)
    ensures
        rfind_upto(s, pat, k) matches Some(j) ==> j <= k && matches_at(s, pat, j),
    decreases k + 1,
{
    if k >= 0 && !matches_at(s, pat, k) {
        lemma_rfind_upto_bounds(s, pat, k - 1);
    }
}

/// A found index is a real occurrence.
pub proof fn lemma_rfind_match(s: Seq<char>, pat: Seq<char>)
    ensures
        rfind(s, pat) matches Some(j) ==> 0 <= j && j + pat.len() <= s.len() && matches_at(s, pat, j),
{
    lemma_rfind_upto_bounds(s, pat, s.len() - pat.len());
}

/// `str::split_once`.
pub fn split_once_exec(s: &[char], pat: &[char]) -> (r: Option<(Vec<char>, Vec<char>)>)
    ensures
        r matches Some((a, b)) ==> split_once(s@, pat@) == Some((a@, b@)),
        r is None ==> split_once(s@, pat@) is None,
{
    proof {
        lemma_find_match(s@, pat@);
    }
    match find_exec(s, pat) {
        Some(i) => {
            assert(find(s@, pat@) == Some(i as int));
            assert(i + pat@.len() <= s@.len() == s.len());
            let a = slice_chars(s, 0, i);
            let b = slice_chars(s, i + pat.len(), s.len());
            assert(a@ =~= s@.take(i as int));
            assert(b@ =~= s@.skip(i + pat@.len()));
            Some((a, b))
        },
        None => None,
    }
}

/// `str::rsplit_once`.
pub fn rsplit_once_exec(s: &[char], pat: &[char]) -> (r: Option<(Vec<char>, Vec<char>)>)
    ensures
        r matches Some((a, b)) ==> rsplit_once(s@, pat@) == Some((a@, b@)),
        r is None ==> rsplit_once(s@, pat@) is None,
{
    proof {
        lemma_rfind_match(s@, pat@);
    }
    match rfind_exec(s, pat) {
        Some(i) => {
            assert(rfind(s@, pat@) == Some(i as int));
            assert(i + pat@.len() <= s@.len() == s.len());
            let a = slice_chars(s, 0, i);
            let b = slice_chars(s, i + pat.len(), s.len());
            assert(a@ =~= s@.take(i as int));
            assert(b@ =~= s@.skip(i + pat@.len()));
            Some((a, b))
        },
        None => None,
    }
}

/// `str::contains`.
pub fn contains_exec(s: &[char], pat: &[char]) -> (r: bool)
    ensures
        r == contains(s@, pat@),
{
    find_exec(s, pat).is_some()
}

/// `str::starts_with`.
pub fn starts_with(s: &[char], p: &[char]) -> (r: bool)
    ensures
        r == has_prefix(s@, p@),
{
    let r = match_at(s, p, 0);
    assert(r ==> s@.take(p@.len() as int) =~= s@.subrange(0, p@.len() as int));
    assert(has_prefix(s@, p@) ==> s@.take(p@.len() as int) =~= s@.subrange(0, p@.len() as int));
    r
}

/// `str::ends_with`.
pub fn ends_with(s: &[char], p: &[char]) -> (r: bool)
    ensures
        r == has_suffix(s@, p@),
{
    if p.len() > s.len() {
        return false;
    }
    let k: usize = s.len() - p.len();
    let r = match_at(s, p, k);
    assert(s@.skip(k as int) =~= s@.subrange(k as int, k + p@.len()));
    r
}

/// `str::strip_prefix`.
pub fn strip_prefix_exec(s: &[char], p: &[char]) -> (r: Option<Vec<char>>)
    ensures
        r matches Some(t) ==> strip_prefix(s@, p@) == Some(t@),
        r is None ==> strip_prefix(s@, p@) is None,
{
    if starts_with(s, p) {
        let t = slice_chars(s, p.len(), s.len());
        assert(t@ =~= s@.skip(p@.len() as int));
        Some(t)
    } else {
        None
    }
}

/// `str::strip_suffix`.
pub fn strip_suffix_exec(s: &[char], p: &[char]) -> (r: Option<Vec<char>>)
    ensures
        r matches Some(t) ==> strip_suffix(s@, p@) == Some(t@),
        r is None ==> strip_suffix(s@, p@) is None,
{
    if ends_with(s, p) {
        let t = slice_chars(s, 0, s.len() - p.len());
        assert(t@ =~= s@.take(s@.len() - p@.len()));
        Some(t)
    } else {
        None
    }
}

/// `s.split(pat).next()`: the text before the first `pat`, or all of `s`.
pub fn before_first_exec(s: &[char], pat: &[char]) -> (r: Vec<char>)
    ensures
        r@ == before_first(s@, pat@),
{
    proof {
        lemma_find_match(s@, pat@);
    }
    match find_exec(s, pat) {
        Some(i) => {
            let a = slice_chars(s, 0, i);
            assert(a@ =~= s@.take(i as int));
            a
        },
        None => {
            let a = slice_chars(s, 0, s.len());
            assert(a@ =~= s@);
            a
        },
    }
}

/// `s.split(pat).nth(n)`.
pub fn split_nth_exec(s: &[char], pat: &[char], n: usize) -> (r: Option<Vec<char>>)
    ensures
        r matches Some(t) ==> split_nth(s@, pat@, n as nat) == Some(t@),
        r is None ==> split_nth(s@, pat@, n as nat) is None,
    decreases n,
{
    proof {
        lemma_find_match(s@, pat@);
    }
    match find_exec(s, pat) {
        None => {
            if n == 0 {
                let a = slice_chars(s, 0, s.len());
                assert(a@ =~= s@);
                Some(a)
            } else {
                None
            }
        },
        Some(i) => {
            if n == 0 {
                let a = slice_chars(s, 0, i);
                assert(a@ =~= s@.take(i as int));
                Some(a)
            } else {
                assert(find(s@, pat@) == Some(i as int));
                assert(i + pat@.len() <= s@.len() == s.len());
                let rest = slice_chars(s, i + pat.len(), s.len());
                assert(rest@ =~= s@.skip(i + pat@.len()));
                split_nth_exec(&rest, pat, n - 1)
            }
        },
    }
}

} // verus!

verus! {

/// `a` followed by `b`.
pub fn concat(a: &[char], b: &[char]) -> (r: Vec<char>)
    ensures
        r@ == a@ + b@,
{
    let mut r = slice_chars(a, 0, a.len());
    assert(r@ =~= a@);
    let mut i: usize = 0;
    while i < b.len()
        invariant
            i <= b@.len(),
            r@ =~= a@ + b@.take(i as int),
        decreases b.len() - i,
    {
        r.push(b[i]);
        i += 1;
        assert(r@ =~= a@ + b@.take(i as int));
    }
    assert(b@.take(b@.len() as int) =~= b@);
    r
}

/// Whether two character sequences are equal.
pub fn chars_eq(a: &[char], b: &[char]) -> (r: bool)
    ensures
        r == (a@ == b@),
{
    if a.len() != b.len() {
        return false;
    }
    let mut i: usize = 0;
    while i < a.len()
        invariant
            i <= a@.len(),
            a@.len() == b@.len(),
            forall|j: int| 0 <= j < i ==> a@[j] == b@[j],
        decreases a.len() - i,
    {
        if a[i] != b[i] {
            return false;
        }
        i += 1;
    }
    assert(a@ =~= b@);
    true
}

} // verus!

verus! {

/// The contents of a sequence of character vectors.
pub open spec fn views(v: Seq<Vec<char>>) -> Seq<Seq<char>> {
    Seq::new(v.len(), |i: int| v[i]@)
}

/// The pieces of `s` separated by `c` (`str::split` with one character).
pub fn split_on_exec(s: &[char], c: char) -> (r: Vec<Vec<char>>)
    ensures
        views(r@) == split_on(s@, c),
{
    let mut done: Vec<Vec<char>> = Vec::new();
    let mut cur: Vec<char> = Vec::new();
    let mut i: usize = 0;
    assert(s@.take(0) =~= Seq::<char>::empty());
    assert(views(done@).push(cur@) =~= split_on(s@.take(0), c));
    while i < s.len()
        invariant
            i <= s@.len(),
            views(done@).push(cur@) =~= split_on(s@.take(i as int), c),
        decreases s.len() - i,
    {
        let x = s[i];
        assert(s@.take(i + 1).drop_last() =~= s@.take(i as int));
        assert(s@.take(i + 1).last() == x);
        if x == c {
            done.push(cur);
            cur = Vec::new();
        } else {
            cur.push(x);
        }
        i += 1;
        assert(views(done@).push(cur@) =~= split_on(s@.take(i as int), c));
    }
    assert(s@.take(s@.len() as int) =~= s@);
    done.push(cur);
    assert(views(done@) =~= split_on(s@, c));
    done
}

/// Drops one trailing carriage return.
pub fn strip_cr_exec(line: &[char]) -> (r: Vec<char>)
    ensures
        r@ == strip_cr(line@),
{
    if line.len() > 0 && line[line.len() - 1] == '\r' {
        let t = slice_chars(line, 0, line.len() - 1);
        assert(t@ =~= line@.drop_last());
        t
    } else {
        let t = slice_chars(line, 0, line.len());
        assert(t@ =~= line@);
        t
    }
}

/// A split has at least one piece.
pub proof fn lemma_split_on_nonempty(s: Seq<char>, c: char)
    ensures
        split_on(s, c).len() > 0,
    decreases s.len(),
{
    if s.len() > 0 {
        lemma_split_on_nonempty(s.drop_last(), c);
    }
}

/// The lines of `s` (`str::lines`).
pub fn lines_exec(s: &[char]) -> (r: Vec<Vec<char>>)
    ensures
        views(r@) == lines(s@),
{
    let pieces = split_on_exec(s, '\n');
    proof {
        lemma_split_on_nonempty(s@, '\n');
    }
    let ghost ps = split_on(s@, '\n');
    let n = pieces.len();
    let mut r: Vec<Vec<char>> = Vec::new();
    let mut i: usize = 0;
    while i + 1 < n
        invariant
            n == pieces@.len(),
            n >= 1,
            views(pieces@) == ps,
            i <= n - 1,
            r@.len() == i,
            forall|k: int| 0 <= k < i ==> #[trigger] r@[k]@ == strip_cr(ps[k]),
        decreases n - i,
    {
        assert(pieces@[i as int]@ == ps[i as int]);
        let line = strip_cr_exec(pieces[i].as_slice());
        assert(line@ == strip_cr(ps[i as int]));
        let ghost before = r@;
        r.push(line);
        assert(r@[i as int]@ == strip_cr(ps[i as int]));
        assert forall|k: int| 0 <= k < i implies #[trigger] r@[k]@ == strip_cr(ps[k]) by {
            assert(r@[k] == before[k]);
        }
        i += 1;
    }
    assert(pieces@[n - 1]@ == ps.last());
    if pieces[n - 1].len() > 0 {
        let last = slice_chars(&pieces[n - 1], 0, pieces[n - 1].len());
        assert(last@ =~= ps.last());
        r.push(last);
    }
    assert(views(r@) =~= lines(s@));
    r
}

/// Text that ends in a character other than whitespace has a word.
pub proof fn lemma_words_nonempty(s: Seq<char>)
    requires
        s.len() > 0,
        !is_ws(s.last()),
    ensures
        words(s).len() > 0,
    decreases s.len(),
{
    if s.len() >= 2 && !is_ws(s[s.len() - 2]) {
        lemma_words_nonempty(s.drop_last());
    }
}

/// The words of `s` (`str::split_whitespace`).
pub fn words_exec(s: &[char]) -> (r: Vec<Vec<char>>)
    ensures
        views(r@) == words(s@),
{
    let mut r: Vec<Vec<char>> = Vec::new();
    let mut i: usize = 0;
    assert(s@.take(0) =~= Seq::<char>::empty());
    while i < s.len()
        invariant
            i <= s@.len(),
            views(r@) =~= words(s@.take(i as int)),
        decreases s.len() - i,
    {
        let x = s[i];
        let ghost t = s@.take(i + 1);
        assert(t.drop_last() =~= s@.take(i as int));
        assert(t.last() == x);
        if is_whitespace(x) {
        } else if i >= 1 && !is_whitespace(s[i - 1]) {
            assert(t[t.len() - 2] == s@[i - 1]);
            proof {
                lemma_words_nonempty(s@.take(i as int));
            }
            let mut last = r.pop().unwrap();
            last.push(x);
            r.push(last);
        } else {
            let mut w: Vec<char> = Vec::new();
            w.push(x);
            r.push(w);
        }
        i += 1;
        assert(views(r@) =~= words(s@.take(i as int)));
    }
    assert(s@.take(s@.len() as int) =~= s@);
    r
}

} // verus!

verus! {

/// The code of `c` with ASCII upper case letters made lower case.
pub open spec fn ascii_lower_code(c: char) -> u32 {
    if 'A' <= c && c <= 'Z' {
        (c as u32 + 32) as u32
    } else {
        c as u32
    }
}

/// `str::eq_ignore_ascii_case`.
pub open spec fn eq_ignore_ascii_case(a: Seq<char>, b: Seq<char>) -> bool {
    a.len() == b.len() && forall|i: int|
        0 <= i < a.len() ==> ascii_lower_code(#[trigger] a[i]) == ascii_lower_code(b[i])
}

fn lower_code(c: char) -> (r: u32)
    ensures
        r == ascii_lower_code(c),
{
    if 'A' <= c && c <= 'Z' {
        (c as u32) + 32
    } else {
        c as u32
    }
}

/// `str::eq_ignore_ascii_case`.
pub fn eq_ignore_ascii_case_exec(a: &[char], b: &[char]) -> (r: bool)
    ensures
        r == eq_ignore_ascii_case(a@, b@),
{
    if a.len() != b.len() {
        return false;
    }
    let mut i: usize = 0;
    while i < a.len()
        invariant
            i <= a@.len(),
            a@.len() == b@.len(),
            forall|j: int| 0 <= j < i ==> ascii_lower_code(#[trigger] a@[j]) == ascii_lower_code(b@[j]),
        decreases a.len() - i,
    {
        if lower_code(a[i]) != lower_code(b[i]) {
            return false;
        }
        i += 1;
    }
    true
}

} // verus!

verus! {

/// Skipping positions where `pat` does not occur leaves `find_from` unchanged.
pub proof fn lemma_find_from_skip(s: Seq<char>, pat: Seq<char>, i: int, k: int)
    requires
        0 <= i <= k,
        forall|j: int| i <= j < k ==> !matches_at(s, pat, j),
    ensures
        find_from(s, pat, i) == find_from(s, pat, k),
    decreases k - i,
{
    if i < k {
        lemma_find_from_skip(s, pat, i + 1, k);
        if i + pat.len() > s.len() {
            lemma_find_from_none(s, pat, i + 1);
        }
    }
}

/// With no occurrence at or after `i`, `find_from` finds nothing.
pub proof fn lemma_find_from_none(s: Seq<char>, pat: Seq<char>, i: int)
    requires
        forall|j: int| i <= j ==> !matches_at(s, pat, j),
    ensures
        find_from(s, pat, i) is None,
    decreases s.len() + 1 - i,
{
    if !(i < 0 || i + pat.len() > s.len()) {
        lemma_find_from_none(s, pat, i + 1);
    }
}

/// The first occurrence is found.
pub proof fn lemma_find_first(s: Seq<char>, pat: Seq<char>, k: int)
    requires
        matches_at(s, pat, k),
        forall|j: int| 0 <= j < k ==> !matches_at(s, pat, j),
    ensures
        find(s, pat) == Some(k),
{
    lemma_find_from_skip(s, pat, 0, k);
}

/// Without any occurrence nothing is found.
pub proof fn lemma_find_absent(s: Seq<char>, pat: Seq<char>)
    requires
        forall|j: int| !matches_at(s, pat, j),
    ensures
        find(s, pat) is None,
{
    lemma_find_from_none(s, pat, 0);
}

/// An occurrence is a match of every character.
pub proof fn lemma_matches_at_chars(s: Seq<char>, pat: Seq<char>, j: int)
    ensures
        matches_at(s, pat, j) <==> (0 <= j && j + pat.len() <= s.len() && forall|t: int|
            0 <= t < pat.len() ==> s[j + t] == pat[t]),
{
    if 0 <= j && j + pat.len() <= s.len() {
        if forall|t: int| 0 <= t < pat.len() ==> s[j + t] == pat[t] {
            assert(s.subrange(j, j + pat.len()) =~= pat);
        }
        if matches_at(s, pat, j) {
            assert forall|t: int| 0 <= t < pat.len() implies s[j + t] == pat[t] by {
                assert(s.subrange(j, j + pat.len())[t] == s[j + t]);
            }
        }
    }
}

/// A one-character pattern occurs exactly where that character stands.
pub proof fn lemma_matches_at_char(s: Seq<char>, c: char, j: int)
    ensures
        matches_at(s, seq![c], j) <==> (0 <= j < s.len() && s[j] == c),
{
    if matches_at(s, seq![c], j) {
        assert(s.subrange(j, j + 1)[0] == s[j]);
    }
    if 0 <= j < s.len() && s[j] == c {
        assert(s.subrange(j, j + 1) =~= seq![c]);
    }
}

/// The first occurrence of a character.
pub proof fn lemma_find_char(s: Seq<char>, c: char, k: int)
    requires
        0 <= k < s.len(),
        s[k] == c,
        forall|j: int| 0 <= j < k ==> s[j] != c,
    ensures
        find(s, seq![c]) == Some(k),
{
    assert forall|j: int| 0 <= j < k implies !matches_at(s, seq![c], j) by {
        lemma_matches_at_char(s, c, j);
    }
    lemma_matches_at_char(s, c, k);
    lemma_find_first(s, seq![c], k);
}

/// A character that does not occur is not found.
pub proof fn lemma_find_char_absent(s: Seq<char>, c: char)
    requires
        !s.contains(c),
    ensures
        find(s, seq![c]) is None,
{
    assert forall|j: int| !matches_at(s, seq![c], j) by {
        lemma_matches_at_char(s, c, j);
        if 0 <= j < s.len() {
            assert(s.contains(s[j]));
        }
    }
    lemma_find_absent(s, seq![c]);
}

/// An occurrence in `a` is an occurrence in `a + b`, so something is found.
pub proof fn lemma_contains_prefix(a: Seq<char>, b: Seq<char>, pat: Seq<char>)
    requires
        contains(a, pat),
    ensures
        contains(a + b, pat),
{
    lemma_find_match(a, pat);
    let k = find(a, pat)->0;
    lemma_matches_at_chars(a, pat, k);
    lemma_matches_at_chars(a + b, pat, k);
    assert forall|t: int| 0 <= t < pat.len() implies (a + b)[k + t] == pat[t] by {
        assert((a + b)[k + t] == a[k + t]);
    }
    if find(a + b, pat) is None {
        lemma_find_none_no_match(a + b, pat, 0, k);
    }
}

proof fn lemma_find_none_no_match(s: Seq<char>, pat: Seq<char>, i: int, k: int)
    requires
        0 <= i <= k,
        find_from(s, pat, i) is None,
    ensures
        !matches_at(s, pat, k),
    decreases k - i,
{
    if i < k && !(i + pat.len() > s.len()) {
        lemma_find_none_no_match(s, pat, i + 1, k);
    }
}

/// An occurrence in `b` is an occurrence in `a + b`, shifted by `a`'s length.
pub proof fn lemma_matches_at_shift(a: Seq<char>, b: Seq<char>, pat: Seq<char>, j: int)
    requires
        0 <= j,
    ensures
        matches_at(a + b, pat, a.len() + j) == matches_at(b, pat, j),
{
    lemma_matches_at_chars(a + b, pat, a.len() + j);
    lemma_matches_at_chars(b, pat, j);
    if 0 <= j && j + pat.len() <= b.len() {
        assert forall|t: int| 0 <= t < pat.len() implies (a + b)[a.len() + j + t] == #[trigger] b.skip(j)[t] by {}
    }
}

/// `s` is its own trim when its ends are not whitespace.
pub proof fn lemma_trim_ws_id(s: Seq<char>)
    requires
        s.len() > 0,
        !is_ws(s[0]),
        !is_ws(s.last()),
    ensures
        trim_ws(s) == s,
{
}

/// `s` is its own trim by `set` when its ends are not in `set`.
pub proof fn lemma_trim_by_id(s: Seq<char>, set: Seq<char>)
    requires
        s.len() > 0,
        !set.contains(s[0]),
        !set.contains(s.last()),
    ensures
        trim_by(s, set) == s,
        trim_start_by(s, set) == s,
        trim_end_by(s, set) == s,
{
}

/// Trimming a leading character of `set` off `c + t` when `t` does not start
/// with one.
pub proof fn lemma_trim_start_one(c: char, t: Seq<char>, set: Seq<char>)
    requires
        set.contains(c),
        t.len() > 0,
        !set.contains(t[0]),
    ensures
        trim_start_by(seq![c] + t, set) == t,
{
    assert((seq![c] + t).drop_first() =~= t);
    assert((seq![c] + t)[0] == c);
    assert(trim_start_by(t, set) == t);
}

} // verus!

verus! {

/// An occurrence of `pat` means that `find` finds one.
pub proof fn lemma_match_found(s: Seq<char>, pat: Seq<char>, k: int)
    requires
        matches_at(s, pat, k),
    ensures
        find(s, pat) is Some,
        contains(s, pat),
{
    if find(s, pat) is None {
        lemma_find_none_no_match(s, pat, 0, k);
    }
}

} // verus!

verus! {



/// Text without the separator is one piece.
pub proof fn lemma_split_on_without_sep(s: Seq<char>, c: char)
    requires
        !s.contains(c),
    ensures
        split_on(s, c) == seq![s],
    decreases s.len(),
{
    if s.len() == 0 {
        assert(s =~= Seq::<char>::empty());
    } else {
        assert(!s.drop_last().contains(c)) by {
            if s.drop_last().contains(c) {
                let k = choose|k: int| 0 <= k < s.drop_last().len() && s.drop_last()[k] == c;
                assert(s[k] == c);
            }
        }
        lemma_split_on_without_sep(s.drop_last(), c);
        assert(s.last() != c) by {
            assert(s[s.len() - 1] == s.last());
        }
        assert(s.drop_last().push(s.last()) =~= s);
        assert(seq![s.drop_last()].update(0, s.drop_last().push(s.last())) =~= seq![s]);
    }
}


/// Splitting at a separator that joins two texts splits each of them.
pub proof fn lemma_split_on_concat(a: Seq<char>, b: Seq<char>, c: char)
    ensures
        split_on(a + seq![c] + b, c) == split_on(a, c) + split_on(b, c),
    decreases b.len(),
{
    let x = a + seq![c] + b;
    if b.len() == 0 {
        assert(x.drop_last() =~= a);
        assert(split_on(b, c) == seq![Seq::<char>::empty()]);
        assert(split_on(x, c) =~= split_on(a, c) + split_on(b, c));
    } else {
        lemma_split_on_concat(a, b.drop_last(), c);
        assert(x.drop_last() =~= a + seq![c] + b.drop_last());
        let sa = split_on(a, c);
        let sb = split_on(b.drop_last(), c);
        lemma_split_on_nonempty(b.drop_last(), c);
        if b.last() == c {
            assert(split_on(x, c) =~= sa + split_on(b, c));
        } else {
            let init = sa + sb;
            assert(init.last() == sb.last());
            assert(init.update(init.len() - 1, init.last().push(b.last())) =~= sa + sb.update(
                sb.len() - 1,
                sb.last().push(b.last()),
            ));
        }
    }
}


/// The lines of a line, a newline and more text: that line (without a
/// closing `\r`), then the lines of the rest.
pub proof fn lemma_lines_cons(a: Seq<char>, b: Seq<char>)
    requires
        !a.contains('\n'),
    ensures
        lines(a + seq!['\n'] + b) == seq![strip_cr(a)] + lines(b),
{
    lemma_split_on_concat(a, b, '\n');
    lemma_split_on_without_sep(a, '\n');
    lemma_split_on_nonempty(b, '\n');
    let pieces = split_on(a + seq!['\n'] + b, '\n');
    let pb = split_on(b, '\n');
    assert(pieces == seq![a] + pb);
    let ended = Seq::new((pieces.len() - 1) as nat, |i: int| strip_cr(pieces[i]));
    let endedb = Seq::new((pb.len() - 1) as nat, |i: int| strip_cr(pb[i]));
    assert(ended =~= seq![strip_cr(a)] + endedb);
    assert(pieces.last() == pb.last());
    if pb.last().len() == 0 {
        assert(lines(a + seq!['\n'] + b) =~= seq![strip_cr(a)] + lines(b));
    } else {
        assert(lines(a + seq!['\n'] + b) =~= seq![strip_cr(a)] + lines(b));
    }
}


/// Text without whitespace is one word.
pub proof fn lemma_words_single(w: Seq<char>)
    requires
        w.len() > 0,
        forall|i: int| 0 <= i < w.len() ==> !is_ws(#[trigger] w[i]),
    ensures
        words(w) == seq![w],
    decreases w.len(),
{
    if w.len() > 1 {
        lemma_words_single(w.drop_last());
        assert(!is_ws(w[w.len() - 2]));
        assert(!is_ws(w[w.len() - 1]));
        assert(w.drop_last().push(w.last()) =~= w);
        assert(seq![w.drop_last()].update(0, w.drop_last().push(w.last())) =~= seq![w]);
    } else {
        assert(!is_ws(w[0]));
        assert(w.last() == w[0]);
        assert(w.drop_last() =~= Seq::<char>::empty());
        assert(words(w.drop_last()) == Seq::<Seq<char>>::empty());
        assert(seq![w.last()] =~= w);
    }
}

/// The words of two texts with a space between them are those of each.
pub proof fn lemma_words_space(a: Seq<char>, b: Seq<char>)
    ensures
        words(a + seq![' '] + b) == words(a) + words(b),
    decreases b.len(),
{
    let x = a + seq![' '] + b;
    if b.len() == 0 {
        assert(x.drop_last() =~= a);
        assert(is_ws(x.last()));
        assert(words(b) == Seq::<Seq<char>>::empty());
        assert(words(x) =~= words(a) + words(b));
    } else {
        lemma_words_space(a, b.drop_last());
        assert(x.drop_last() =~= a + seq![' '] + b.drop_last());
        let wa = words(a);
        let wb = words(b.drop_last());
        assert(x.last() == b.last());
        if is_ws(b.last()) {
        } else if b.len() >= 2 && !is_ws(b[b.len() - 2]) {
            assert(x[x.len() - 2] == b[b.len() - 2]);
            assert(b.drop_last().last() == b[b.len() - 2]);
            lemma_words_nonempty(b.drop_last());
            let init = wa + wb;
            assert(init.last() == wb.last());
            assert(init.update(init.len() - 1, init.last().push(b.last())) =~= wa + wb.update(
                wb.len() - 1,
                wb.last().push(b.last()),
            ));
        } else {
            if b.len() == 1 {
                assert(x[x.len() - 2] == ' ');
                assert(b.drop_last() =~= Seq::<char>::empty());
            } else {
                assert(x[x.len() - 2] == b[b.len() - 2]);
            }
            assert((wa + wb).push(seq![b.last()]) =~= wa + wb.push(seq![b.last()]));
        }
    }
}

} // verus!
