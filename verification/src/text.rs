//! Character-level string rules used by the hotkey and launch logic: prefix
//! and membership tests, ASCII case folding, Unicode whitespace and trimming.
use vstd::prelude::*;

verus! {

/// Whether `c` has the Unicode `White_Space` property (the property that
/// `char::is_whitespace` tests): tab, line feed, vertical tab, form feed,
/// carriage return, space, next line, no-break space, ogham space mark, the
/// spaces U+2000..U+200A, line and paragraph separators, narrow no-break
/// space, medium mathematical space and ideographic space.
pub open spec fn is_unicode_whitespace(c: char) -> bool {
    let u = c as u32;
    ||| 0x09 <= u <= 0x0D
    ||| u == 0x20
    ||| u == 0x85
    ||| u == 0xA0
    ||| u == 0x1680
    ||| 0x2000 <= u <= 0x200A
    ||| u == 0x2028
    ||| u == 0x2029
    ||| u == 0x202F
    ||| u == 0x205F
    ||| u == 0x3000
}

/// Whether `c` is a whitespace character.
pub fn is_whitespace(c: char) -> (r: bool)
    ensures
        r == is_unicode_whitespace(c),
{
    let u = c as u32;
    (0x09 <= u && u <= 0x0D)
        || u == 0x20
        || u == 0x85
        || u == 0xA0
        || u == 0x1680
        || (0x2000 <= u && u <= 0x200A)
        || u == 0x2028
        || u == 0x2029
        || u == 0x202F
        || u == 0x205F
        || u == 0x3000
}

/// `s` begins with `prefix`.
pub open spec fn starts_with(s: Seq<char>, prefix: Seq<char>) -> bool {
    prefix.len() <= s.len() && s.subrange(0, prefix.len() as int) == prefix
}

/// `s` holds a whitespace character.
pub open spec fn has_whitespace(s: Seq<char>) -> bool {
    exists|i: int| 0 <= i < s.len() && is_unicode_whitespace(#[trigger] s[i])
}

/// Code point of `c` after ASCII lower-casing: `A`..`Z` map to `a`..`z`,
/// every other character is kept.
pub open spec fn ascii_lower(c: char) -> int {
    if 'A' <= c && c <= 'Z' {
        (c as u32) + 32
    } else {
        c as int
    }
}

/// `a` and `b` are equal once both are ASCII lower-cased.
pub open spec fn eq_ignore_ascii_case(a: Seq<char>, b: Seq<char>) -> bool {
    &&& a.len() == b.len()
    &&& forall|i: int| 0 <= i < a.len() ==> ascii_lower(#[trigger] a[i]) == ascii_lower(b[i])
}

/// `s` without its leading whitespace.
pub open spec fn trim_start(s: Seq<char>) -> Seq<char>
    decreases s.len(),
{
    if s.len() > 0 && is_unicode_whitespace(s[0]) {
        trim_start(s.drop_first())
    } else {
        s
    }
}

/// `s` without its trailing whitespace.
pub open spec fn trim_end(s: Seq<char>) -> Seq<char>
    decreases s.len(),
{
    if s.len() > 0 && is_unicode_whitespace(s.last()) {
        trim_end(s.drop_last())
    } else {
        s
    }
}

/// `s` without leading and trailing whitespace.
pub open spec fn trimmed(s: Seq<char>) -> Seq<char> {
    trim_end(trim_start(s))
}

/// The characters of `s`, in order.
pub fn chars_of(s: &str) -> (v: Vec<char>)
    ensures
        v@ == s@,
{
    broadcast use vstd::string::group_string_axioms;

    let mut v: Vec<char> = Vec::new();
    for c in it: s.chars()
        invariant
            it.seq() == s@,
            v@ == it.seq().take(it.index() as int),
    {
        v.push(c);
    }
    v
}

/// Whether `s` begins with `prefix`.
pub fn chars_start_with(s: &[char], prefix: &[char]) -> (r: bool)
    ensures
        r == starts_with(s@, prefix@),
{
    if prefix.len() > s.len() {
        return false;
    }
    let mut i: usize = 0;
    while i < prefix.len()
        invariant
            prefix.len() <= s.len(),
            i <= prefix.len(),
            forall|j: int| 0 <= j < i ==> s@[j] == prefix@[j],
        decreases prefix.len() - i,
    {
        if s[i] != prefix[i] {
            assert(s@.subrange(0, prefix@.len() as int)[i as int] != prefix@[i as int]);
            return false;
        }
        i = i + 1;
    }
    assert(s@.subrange(0, prefix@.len() as int) =~= prefix@);
    true
}

/// Whether `a` and `b` hold the same characters.
pub fn chars_equal(a: &[char], b: &[char]) -> (r: bool)
    ensures
        r == (a@ == b@),
{
    if a.len() != b.len() {
        return false;
    }
    let mut i: usize = 0;
    while i < a.len()
        invariant
            a.len() == b.len(),
            i <= a.len(),
            forall|j: int| 0 <= j < i ==> a@[j] == b@[j],
        decreases a.len() - i,
    {
        if a[i] != b[i] {
            return false;
        }
        i = i + 1;
    }
    assert(a@ =~= b@);
    true
}

/// Whether `s` holds the character `c`.
pub fn chars_contain(s: &[char], c: char) -> (r: bool)
    ensures
        r == s@.contains(c),
{
    let mut i: usize = 0;
    while i < s.len()
        invariant
            i <= s.len(),
            forall|j: int| 0 <= j < i ==> s@[j] != c,
        decreases s.len() - i,
    {
        if s[i] == c {
            assert(s@[i as int] == c);
            return true;
        }
        i = i + 1;
    }
    false
}

/// Whether `s` holds a whitespace character.
pub fn chars_have_whitespace(s: &[char]) -> (r: bool)
    ensures
        r == has_whitespace(s@),
{
    let mut i: usize = 0;
    while i < s.len()
        invariant
            i <= s.len(),
            forall|j: int| 0 <= j < i ==> !is_unicode_whitespace(#[trigger] s@[j]),
        decreases s.len() - i,
    {
        if is_whitespace(s[i]) {
            assert(is_unicode_whitespace(s@[i as int]));
            return true;
        }
        i = i + 1;
    }
    false
}

fn lower_code(c: char) -> (r: u32)
    ensures
        r == ascii_lower(c),
{
    if 'A' <= c && c <= 'Z' {
        (c as u32) + 32
    } else {
        c as u32
    }
}

/// Whether `a` and `b` are equal up to ASCII case.
pub fn chars_eq_ignore_ascii_case(a: &[char], b: &[char]) -> (r: bool)
    ensures
        r == eq_ignore_ascii_case(a@, b@),
{
    if a.len() != b.len() {
        return false;
    }
    let mut i: usize = 0;
    while i < a.len()
        invariant
            a.len() == b.len(),
            i <= a.len(),
            forall|j: int| 0 <= j < i ==> ascii_lower(#[trigger] a@[j]) == ascii_lower(b@[j]),
        decreases a.len() - i,
    {
        if lower_code(a[i]) != lower_code(b[i]) {
            return false;
        }
        i = i + 1;
    }
    true
}

/// Removing leading whitespace from `s.skip(i)` gives the same as from `s`,
/// when `s[0..i]` is all whitespace.
proof fn lemma_trim_start_skip(s: Seq<char>, i: int)
    requires
        0 <= i <= s.len(),
        forall|j: int| 0 <= j < i ==> is_unicode_whitespace(#[trigger] s[j]),
    ensures
        trim_start(s) == trim_start(s.skip(i)),
    decreases i,
{
    if i > 0 {
        assert(is_unicode_whitespace(s[0]));
        assert forall|j: int| 0 <= j < i - 1 implies is_unicode_whitespace(
            #[trigger] s.drop_first()[j],
        ) by {
            assert(s.drop_first()[j] == s[j + 1]);
        }
        lemma_trim_start_skip(s.drop_first(), i - 1);
        assert(s.drop_first().skip(i - 1) =~= s.skip(i));
    } else {
        assert(s.skip(0) =~= s);
    }
}

/// Removing trailing whitespace from `s.take(e)` gives the same as from `s`,
/// when `s[e..]` is all whitespace.
proof fn lemma_trim_end_take(s: Seq<char>, e: int)
    requires
        0 <= e <= s.len(),
        forall|j: int| e <= j < s.len() ==> is_unicode_whitespace(#[trigger] s[j]),
    ensures
        trim_end(s) == trim_end(s.take(e)),
    decreases s.len() - e,
{
    if e < s.len() {
        assert(is_unicode_whitespace(s.last()));
        assert forall|j: int| e <= j < s.len() - 1 implies is_unicode_whitespace(
            #[trigger] s.drop_last()[j],
        ) by {
            assert(s.drop_last()[j] == s[j]);
        }
        lemma_trim_end_take(s.drop_last(), e);
        assert(s.drop_last().take(e) =~= s.take(e));
    } else {
        assert(s.take(e) =~= s);
    }
}

/// `s` without leading and trailing whitespace, as `str::trim` gives it.
pub fn trim(s: &str) -> (r: String)
    ensures
        r@ == trimmed(s@),
{
    let cs = chars_of(s);
    let n = cs.len();
    let mut start: usize = 0;
    while start < n && is_whitespace(cs[start])
        invariant
            cs@ == s@,
            n == cs.len(),
            start <= n,
            forall|j: int| 0 <= j < start ==> is_unicode_whitespace(#[trigger] cs@[j]),
        decreases n - start,
    {
        start = start + 1;
    }
    let mut end: usize = n;
    while end > start && is_whitespace(cs[end - 1])
        invariant
            cs@ == s@,
            n == cs.len(),
            start <= end <= n,
            forall|j: int| end <= j < n ==> is_unicode_whitespace(#[trigger] cs@[j]),
        decreases end - start,
    {
        end = end - 1;
    }
    proof {
        let t = cs@.skip(start as int);
        lemma_trim_start_skip(cs@, start as int);
        if start < n {
            assert(!is_unicode_whitespace(t[0]));
        }
        assert(trim_start(t) == t);
        assert forall|j: int| end - start <= j < t.len() implies is_unicode_whitespace(
            #[trigger] t[j],
        ) by {
            assert(t[j] == cs@[j + start]);
        }
        lemma_trim_end_take(t, end - start);
        let u = t.take(end - start);
        if end > start {
            assert(u.last() == cs@[end - 1]);
        }
        assert(trim_end(u) == u);
        assert(u =~= s@.subrange(start as int, end as int));
    }
    s.substring_char(start, end).to_owned()
}

/// Leading whitespace of `s + w` is that of `s`, unless `s` is all
/// whitespace, when it runs on into `w`.
proof fn lemma_trim_start_append(s: Seq<char>, w: Seq<char>)
    ensures
        trim_start(s + w) == if trim_start(s).len() > 0 {
            trim_start(s) + w
        } else {
            trim_start(w)
        },
    decreases s.len(),
{
    if s.len() == 0 {
        assert(s + w =~= w);
    } else {
        assert((s + w)[0] == s[0]);
        if is_unicode_whitespace(s[0]) {
            assert((s + w).drop_first() =~= s.drop_first() + w);
            lemma_trim_start_append(s.drop_first(), w);
        }
    }
}

/// The characters with the Unicode `White_Space` property, and only they,
/// count as whitespace: the ASCII controls tab, line feed, vertical tab,
/// form feed and carriage return, the space, next line, no-break space,
/// ogham space mark, the eleven spaces en quad through hair space, the line
/// and paragraph separators, narrow no-break space, medium mathematical
/// space and ideographic space.
pub proof fn whitespace_is_the_white_space_property(c: char)
    ensures
        is_unicode_whitespace(c) <==> {
            ||| c == '\t' || c == '\n' || c == '\u{0B}' || c == '\u{0C}' || c == '\r'
            ||| c == ' ' || c == '\u{85}' || c == '\u{A0}' || c == '\u{1680}'
            ||| '\u{2000}' <= c && c <= '\u{200A}'
            ||| c == '\u{2028}' || c == '\u{2029}' || c == '\u{202F}' || c == '\u{205F}'
            ||| c == '\u{3000}'
        },
{
}

/// Whitespace appended to a string, such as the carriage return and line
/// feed that end a line, is gone once it is trimmed.
pub proof fn trailing_whitespace_is_trimmed(s: Seq<char>, w: Seq<char>)
    requires
        forall|j: int| 0 <= j < w.len() ==> is_unicode_whitespace(#[trigger] w[j]),
    ensures
        trimmed(s + w) == trimmed(s),
        trimmed(s + seq!['\r', '\n']) == trimmed(s),
{
    lemma_whitespace_suffix_trimmed(s, w);
    let crlf = seq!['\r', '\n'];
    assert(is_unicode_whitespace(crlf[0]) && is_unicode_whitespace(crlf[1]));
    lemma_whitespace_suffix_trimmed(s, crlf);
}

/// `trimmed(s + w) == trimmed(s)` for all-whitespace `w`.
proof fn lemma_whitespace_suffix_trimmed(s: Seq<char>, w: Seq<char>)
    requires
        forall|j: int| 0 <= j < w.len() ==> is_unicode_whitespace(#[trigger] w[j]),
    ensures
        trimmed(s + w) == trimmed(s),
{
    lemma_trim_start_append(s, w);
    lemma_trim_start_skip(w, w.len() as int);
    assert(w.skip(w.len() as int).len() == 0);
    let t = trim_start(s);
    if t.len() > 0 {
        let tw = t + w;
        assert forall|j: int| t.len() <= j < tw.len() implies is_unicode_whitespace(
            #[trigger] tw[j],
        ) by {
            assert(tw[j] == w[j - t.len()]);
        }
        lemma_trim_end_take(tw, t.len() as int);
        assert(tw.take(t.len() as int) =~= t);
    }
}

} // verus!
