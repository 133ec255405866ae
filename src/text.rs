//! Character-level helpers shared by the parsers.
use vstd::prelude::*;
use vstd::std_specs::iter::IteratorSpec;

verus! {

/// The characters of `s`, in order, as an indexable vector.
pub fn chars_of(s: &str) -> (r: Vec<char>)
    ensures
        r@ == s@,
{
    let mut out: Vec<char> = Vec::new();
    let mut it = s.chars();
    let ghost all = s@;
    assert(it.remaining() == all);
    broadcast use vstd::string::group_string_axioms;
    loop
        invariant
            all == s@,
            it.obeys_prophetic_iter_laws(),
            it.remaining() == all.skip(out@.len() as int),
            out@ == all.take(out@.len() as int),
            out@.len() <= all.len(),
        decreases all.len() - out@.len(),
    {
        match it.next() {
            Some(c) => {
                assert(all.take(out@.len() + 1int) =~= all.take(out@.len() as int).push(c));
                out.push(c);
                assert(all.skip(out@.len() as int) =~= all.skip(out@.len() - 1int).drop_first());
            },
            None => {
                assert(all.skip(out@.len() as int).len() == 0);
                assert(out@ =~= all);
                return out;
            },
        }
    }
}

/// Whatever `char::is_alphanumeric` answers for `c`: Unicode's alphabetic or
/// numeric classes.
pub uninterp spec fn alphanumeric(c: char) -> bool;

/// Relies on `char::is_alphanumeric`, whose answer depends on `c` alone.
#[verifier::external_body]
fn is_alphanumeric(c: char) -> (r: bool)
    ensures
        r == alphanumeric(c),
{
    c.is_alphanumeric()
}

/// The classes of characters that the tokenizers take runs of.
#[derive(Clone, Copy, PartialEq, Eq, Structural, Debug)]
pub enum CharClass {
    /// Space, tab, carriage return or newline.
    Multispace,
    /// Space or tab.
    Blank,
    /// An ASCII letter.
    Letter,
    /// A character that may stand in a selector.
    SelectorChar,
    /// A character that may stand in the last segment of a resource identifier.
    NameChar,
    /// Anything but a newline.
    NotNewline,
    /// Anything but a slash.
    NotSlash,
}

pub open spec fn is_letter(c: char) -> bool {
    ('a' <= c && c <= 'z') || ('A' <= c && c <= 'Z')
}

pub open spec fn in_class(k: CharClass, c: char) -> bool {
    match k {
        CharClass::Multispace => c == ' ' || c == '\t' || c == '\r' || c == '\n',
        CharClass::Blank => c == ' ' || c == '\t',
        CharClass::Letter => is_letter(c),
        CharClass::SelectorChar => alphanumeric(c) || c == '.' || c == '-' || c == '_' || c == '*',
        CharClass::NameChar => alphanumeric(c) || c == '-' || c == ' ',
        CharClass::NotNewline => c != '\n',
        CharClass::NotSlash => c != '/',
    }
}

/// Whether `c` belongs to class `k`.
pub fn class_has(k: CharClass, c: char) -> (r: bool)
    ensures
        r == in_class(k, c),
{
    match k {
        CharClass::Multispace => c == ' ' || c == '\t' || c == '\r' || c == '\n',
        CharClass::Blank => c == ' ' || c == '\t',
        CharClass::Letter => ('a' <= c && c <= 'z') || ('A' <= c && c <= 'Z'),
        CharClass::SelectorChar => is_alphanumeric(c) || c == '.' || c == '-' || c == '_' || c
            == '*',
        CharClass::NameChar => is_alphanumeric(c) || c == '-' || c == ' ',
        CharClass::NotNewline => c != '\n',
        CharClass::NotSlash => c != '/',
    }
}

/// The end of the longest run of class `k` that starts at `i`.
pub open spec fn span(s: Seq<char>, i: int, k: CharClass) -> int
    decreases s.len() - i,
{
    if 0 <= i < s.len() && in_class(k, s[i]) {
        span(s, i + 1, k)
    } else {
        i
    }
}

pub proof fn lemma_span_bounds(s: Seq<char>, i: int, k: CharClass)
    requires
        0 <= i <= s.len(),
    ensures
        i <= span(s, i, k) <= s.len(),
        span(s, i, k) < s.len() ==> !in_class(k, s[span(s, i, k)]),
        forall|j: int| i <= j < span(s, i, k) ==> in_class(k, #[trigger] s[j]),
    decreases s.len() - i,
{
    if i < s.len() && in_class(k, s[i]) {
        lemma_span_bounds(s, i + 1, k);
    }
}

/// Where the run of class `k` that starts at `i` ends.
pub fn span_end(s: &Vec<char>, i: usize, k: CharClass) -> (r: usize)
    requires
        i <= s@.len(),
    ensures
        r == span(s@, i as int, k),
        i <= r <= s@.len(),
{
    proof {
        lemma_span_bounds(s@, i as int, k);
    }
    let mut j = i;
    while j < s.len() && class_has(k, s[j])
        invariant
            i <= j <= s@.len(),
            span(s@, i as int, k) == span(s@, j as int, k),
        decreases s@.len() - j,
    {
        j = j + 1;
    }
    j
}

/// Whether the characters of `lit` stand in `s` from position `i` on.
pub open spec fn has_at(s: Seq<char>, i: int, lit: Seq<char>) -> bool {
    0 <= i && i + lit.len() <= s.len() && s.subrange(i, i + lit.len()) == lit
}

/// Whether `lit` stands in `s` at position `i`.
pub fn starts_with_at(s: &Vec<char>, i: usize, lit: &str) -> (r: bool)
    ensures
        r == has_at(s@, i as int, lit@),
{
    let l = chars_of(lit);
    if i > s.len() || l.len() > s.len() - i {
        return false;
    }
    let n = s.len();
    let mut j: usize = 0;
    while j < l.len()
        invariant
            n == s@.len(),
            i + l@.len() <= s@.len(),
            j <= l@.len(),
            l@ == lit@,
            forall|m: int| 0 <= m < j ==> s@[i + m] == l@[m],
        decreases l@.len() - j,
    {
        if s[i + j] != l[j] {
            assert(s@.subrange(i as int, i + l@.len())[j as int] != lit@[j as int]);
            return false;
        }
        j = j + 1;
    }
    assert(s@.subrange(i as int, i + l@.len()) =~= lit@);
    true
}

} // verus!
