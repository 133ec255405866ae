//! The rule language: its grammar, stated over sequences of characters, and
//! the parser that follows it.
//!
//! A file is a run of blocks between separators (whitespace and `//` comments
//! that end at a newline). A block is a selector, blanks, `{`, whitespace, one
//! or more condition lines, whitespace and `}`. A condition line is a property,
//! blanks, and either `=` blanks `"letters"` or `~=` blanks `/pattern/`.
//! Successive condition lines, and successive blocks, are parted by an optional
//! comment, a newline and any separators. Every token is taken greedily, and a
//! list ends at the first element that does not follow its delimiter.
use vstd::prelude::*;
use crate::rules::{ConditionModel, Condition, Pattern, Property, Rule, Selector, property_of, pattern_compiles};
use crate::text::{CharClass, chars_of, span, span_end, lemma_span_bounds};

verus! {

// ------------------------------------------------------------------ grammar

/// A run of at least one character of class `k` from `i`: where it ends.
pub open spec fn run1(s: Seq<char>, i: int, k: CharClass) -> Option<int> {
    let e = span(s, i, k);
    if e > i {
        Some(e)
    } else {
        None
    }
}

/// A comment from `i`: `//` and what follows up to a newline, which must come.
pub open spec fn comment_end(s: Seq<char>, i: int) -> Option<int> {
    if 0 <= i && i + 1 < s.len() && s[i] == '/' && s[i + 1] == '/' {
        let e = span(s, i, CharClass::NotNewline);
        if e < s.len() {
            Some(e)
        } else {
            None
        }
    } else {
        None
    }
}

/// One separator from `i`: a run of whitespace, else a comment.
pub open spec fn sep_end(s: Seq<char>, i: int) -> Option<int> {
    match run1(s, i, CharClass::Multispace) {
        Some(e) => Some(e),
        None => comment_end(s, i),
    }
}

/// Where the separators that follow `i` end.
pub open spec fn seps(s: Seq<char>, i: int) -> int
    decreases s.len() - i,
{
    match sep_end(s, i) {
        Some(e) => if i < e <= s.len() {
            seps(s, e)
        } else {
            i
        },
        None => i,
    }
}

/// A quoted value from `i`: `"`, one or more letters, `"`.
pub open spec fn quoted(s: Seq<char>, i: int) -> Option<(int, Seq<char>)> {
    if 0 <= i < s.len() && s[i] == '"' {
        let e = span(s, i + 1, CharClass::Letter);
        if e > i + 1 && e < s.len() && s[e] == '"' {
            Some((e + 1, s.subrange(i + 1, e)))
        } else {
            None
        }
    } else {
        None
    }
}

/// A regular-expression literal from `i`: `/`, text without `/`, `/`.
pub open spec fn regex_literal(s: Seq<char>, i: int) -> Option<(int, Seq<char>)> {
    if 0 <= i < s.len() && s[i] == '/' {
        let e = span(s, i + 1, CharClass::NotSlash);
        if e < s.len() {
            Some((e + 1, s.subrange(i + 1, e)))
        } else {
            None
        }
    } else {
        None
    }
}

/// The operator and operand of a condition, from `i`.
pub open spec fn condition_tail(s: Seq<char>, i: int) -> Option<(int, ConditionModel)> {
    if 0 <= i < s.len() && s[i] == '=' {
        match run1(s, i + 1, CharClass::Blank) {
            Some(b) => match quoted(s, b) {
                Some((e, v)) => Some((e, ConditionModel::Equal(v))),
                None => None,
            },
            None => None,
        }
    } else if 0 <= i && i + 1 < s.len() && s[i] == '~' && s[i + 1] == '=' {
        match run1(s, i + 2, CharClass::Blank) {
            Some(b) => match regex_literal(s, b) {
                Some((e, p)) => Some((e, ConditionModel::Match(p))),
                None => None,
            },
            None => None,
        }
    } else {
        None
    }
}

/// A condition line read as text: its property token and its condition.
pub struct LineText {
    pub property: Seq<char>,
    pub condition: ConditionModel,
}

/// A condition line from `i`: a property, blanks, then the condition.
pub open spec fn condition_line(s: Seq<char>, i: int) -> Option<(int, LineText)> {
    match run1(s, i, CharClass::Letter) {
        Some(p) => match run1(s, p, CharClass::Blank) {
            Some(b) => match condition_tail(s, b) {
                Some((e, c)) => Some((e, LineText { property: s.subrange(i, p), condition: c })),
                None => None,
            },
            None => None,
        },
        None => None,
    }
}

/// The delimiter between two lines: an optional comment, a newline and any
/// separators.
pub open spec fn line_delim(s: Seq<char>, i: int) -> Option<int> {
    let c = match comment_end(s, i) {
        Some(e) => e,
        None => i,
    };
    if 0 <= c < s.len() && s[c] == '\n' {
        Some(seps(s, c + 1))
    } else {
        None
    }
}

/// The condition lines that follow the one ending at `i`, appended to `acc`,
/// and where the last of them ends.
pub open spec fn more_lines(s: Seq<char>, i: int, acc: Seq<LineText>) -> (int, Seq<LineText>)
    decreases s.len() - i,
{
    match line_delim(s, i) {
        Some(d) => match condition_line(s, d) {
            Some((e, l)) => if i < e <= s.len() {
                more_lines(s, e, acc.push(l))
            } else {
                (i, acc)
            },
            None => (i, acc),
        },
        None => (i, acc),
    }
}

/// The condition lines of a block from `i` (possibly none).
pub open spec fn lines(s: Seq<char>, i: int) -> (int, Seq<LineText>) {
    match condition_line(s, i) {
        Some((e, l)) => more_lines(s, e, seq![l]),
        None => (i, Seq::empty()),
    }
}

/// A rule read as text: the selector of its block, its property token and its
/// condition.
pub struct RuleText {
    pub selector: Seq<char>,
    pub property: Seq<char>,
    pub condition: ConditionModel,
}

/// The rules of a block whose selector is `sel`, one per line, in order.
pub open spec fn block_rules(sel: Seq<char>, ls: Seq<LineText>) -> Seq<RuleText> {
    ls.map_values(|l: LineText| RuleText { selector: sel, property: l.property, condition: l.condition })
}

/// A block from `i`: selector, blanks, `{`, whitespace, the lines, whitespace, `}`.
pub open spec fn block(s: Seq<char>, i: int) -> Option<(int, Seq<RuleText>)> {
    match run1(s, i, CharClass::SelectorChar) {
        Some(a) => match run1(s, a, CharClass::Blank) {
            Some(b) => if b < s.len() && s[b] == '{' {
                match run1(s, b + 1, CharClass::Multispace) {
                    Some(m) => {
                        let (l, ls) = lines(s, m);
                        match run1(s, l, CharClass::Multispace) {
                            Some(m2) => if m2 < s.len() && s[m2] == '}' {
                                Some((m2 + 1, block_rules(s.subrange(i, a), ls)))
                            } else {
                                None
                            },
                            None => None,
                        }
                    },
                    None => None,
                }
            } else {
                None
            },
            None => None,
        },
        None => None,
    }
}

/// The blocks that follow the one ending at `i`, appended to `acc`, and where
/// the last of them ends.
pub open spec fn more_blocks(s: Seq<char>, i: int, acc: Seq<Seq<RuleText>>) -> (int, Seq<Seq<RuleText>>)
    decreases s.len() - i,
{
    match line_delim(s, i) {
        Some(d) => match block(s, d) {
            Some((e, b)) => if i < e <= s.len() {
                more_blocks(s, e, acc.push(b))
            } else {
                (i, acc)
            },
            None => (i, acc),
        },
        None => (i, acc),
    }
}

/// The blocks from `i` (possibly none).
pub open spec fn blocks(s: Seq<char>, i: int) -> (int, Seq<Seq<RuleText>>) {
    match block(s, i) {
        Some((e, b)) => more_blocks(s, e, seq![b]),
        None => (i, Seq::empty()),
    }
}

/// The rules a whole file holds, in order, or `None` where it does not follow
/// the grammar: separators, the blocks, separators, and nothing after.
pub open spec fn file_rules(s: Seq<char>) -> Option<Seq<RuleText>> {
    let (b, bs) = blocks(s, seps(s, 0));
    if seps(s, b) == s.len() {
        Some(bs.flatten_alt())
    } else {
        None
    }
}

// ------------------------------------------------------------ the tokenizer

/// A condition line's condition as it was read, before any pattern is compiled.
#[derive(Debug, PartialEq)]
pub enum ConditionSource {
    Equal(String),
    Match(String),
}

impl View for ConditionSource {
    type V = ConditionModel;

    open spec fn view(&self) -> ConditionModel {
        match self {
            ConditionSource::Equal(v) => ConditionModel::Equal(v@),
            ConditionSource::Match(p) => ConditionModel::Match(p@),
        }
    }
}

/// A condition line as it was read.
#[derive(Debug, PartialEq)]
pub struct LineSource {
    pub property: String,
    pub condition: ConditionSource,
}

impl View for LineSource {
    type V = LineText;

    open spec fn view(&self) -> LineText {
        LineText { property: self.property@, condition: self.condition@ }
    }
}

/// A rule as it was read, before any pattern is compiled.
#[derive(Debug, PartialEq)]
pub struct RuleSource {
    pub selector: String,
    pub property: String,
    pub condition: ConditionSource,
}

impl View for RuleSource {
    type V = RuleText;

    open spec fn view(&self) -> RuleText {
        RuleText {
            selector: self.selector@,
            property: self.property@,
            condition: self.condition@,
        }
    }
}

pub open spec fn opt_pos(r: Option<usize>) -> Option<int> {
    match r {
        Some(e) => Some(e as int),
        None => None,
    }
}

/// The text of `t` between positions `a` and `b`.
fn slice_text(t: &str, a: usize, b: usize) -> (r: String)
    requires
        a <= b <= t@.len(),
    ensures
        r@ == t@.subrange(a as int, b as int),
{
    t.substring_char(a, b).to_owned()
}

/// Where a run of at least one character of class `k` from `i` ends.
pub fn run1_end(s: &Vec<char>, i: usize, k: CharClass) -> (r: Option<usize>)
    requires
        i <= s@.len(),
    ensures
        opt_pos(r) == run1(s@, i as int, k),
        r matches Some(e) ==> i < e <= s@.len(),
{
    let e = span_end(s, i, k);
    if e > i {
        Some(e)
    } else {
        None
    }
}

/// Where a comment from `i` ends (at its newline).
pub fn comment_at(s: &Vec<char>, i: usize) -> (r: Option<usize>)
    requires
        i <= s@.len(),
    ensures
        opt_pos(r) == comment_end(s@, i as int),
        r matches Some(e) ==> i < e < s@.len(),
{
    if i < s.len() && s.len() - i > 1 && s[i] == '/' && s[i + 1] == '/' {
        let e = span_end(s, i, CharClass::NotNewline);
        proof {
            lemma_span_bounds(s@, i + 1, CharClass::NotNewline);
        }
        if e < s.len() {
            Some(e)
        } else {
            None
        }
    } else {
        None
    }
}

/// Where one separator from `i` ends.
pub fn sep_at(s: &Vec<char>, i: usize) -> (r: Option<usize>)
    requires
        i <= s@.len(),
    ensures
        opt_pos(r) == sep_end(s@, i as int),
        r matches Some(e) ==> i < e <= s@.len(),
{
    match run1_end(s, i, CharClass::Multispace) {
        Some(e) => Some(e),
        None => comment_at(s, i),
    }
}

/// Where the separators from `i` end.
pub fn skip_seps(s: &Vec<char>, i: usize) -> (r: usize)
    requires
        i <= s@.len(),
    ensures
        r == seps(s@, i as int),
        i <= r <= s@.len(),
{
    let mut j = i;
    loop
        invariant
            i <= j <= s@.len(),
            seps(s@, i as int) == seps(s@, j as int),
        decreases s@.len() - j,
    {
        match sep_at(s, j) {
            Some(e) => {
                j = e;
            },
            None => {
                return j;
            },
        }
    }
}

/// A quoted value from `i`: where it ends, and its letters.
pub fn quoted_at(s: &Vec<char>, t: &str, i: usize) -> (r: Option<(usize, String)>)
    requires
        s@ == t@,
        i <= s@.len(),
    ensures
        match quoted(s@, i as int) {
            Some((e, v)) => r matches Some((e2, w)) && e2 == e && w@ == v && e <= s@.len(),
            None => r is None,
        },
{
    if i < s.len() && s[i] == '"' {
        let e = span_end(s, i + 1, CharClass::Letter);
        if e > i + 1 && e < s.len() && s[e] == '"' {
            Some((e + 1, slice_text(t, i + 1, e)))
        } else {
            None
        }
    } else {
        None
    }
}

/// A regular-expression literal from `i`: where it ends, and its pattern.
pub fn regex_at(s: &Vec<char>, t: &str, i: usize) -> (r: Option<(usize, String)>)
    requires
        s@ == t@,
        i <= s@.len(),
    ensures
        match regex_literal(s@, i as int) {
            Some((e, v)) => r matches Some((e2, w)) && e2 == e && w@ == v && e <= s@.len(),
            None => r is None,
        },
{
    if i < s.len() && s[i] == '/' {
        let e = span_end(s, i + 1, CharClass::NotSlash);
        if e < s.len() {
            Some((e + 1, slice_text(t, i + 1, e)))
        } else {
            None
        }
    } else {
        None
    }
}

/// The operator and operand of a condition from `i`.
pub fn condition_tail_at(s: &Vec<char>, t: &str, i: usize) -> (r: Option<(usize, ConditionSource)>)
    requires
        s@ == t@,
        i <= s@.len(),
    ensures
        match condition_tail(s@, i as int) {
            Some((e, c)) => r matches Some((e2, w)) && e2 == e && w@ == c && e <= s@.len(),
            None => r is None,
        },
{
    if i < s.len() && s[i] == '=' {
        match run1_end(s, i + 1, CharClass::Blank) {
            Some(b) => match quoted_at(s, t, b) {
                Some((e, v)) => Some((e, ConditionSource::Equal(v))),
                None => None,
            },
            None => None,
        }
    } else if i < s.len() && s.len() - i > 1 && s[i] == '~' && s[i + 1] == '=' {
        match run1_end(s, i + 2, CharClass::Blank) {
            Some(b) => match regex_at(s, t, b) {
                Some((e, p)) => Some((e, ConditionSource::Match(p))),
                None => None,
            },
            None => None,
        }
    } else {
        None
    }
}

/// A condition line from `i`.
pub fn condition_line_at(s: &Vec<char>, t: &str, i: usize) -> (r: Option<(usize, LineSource)>)
    requires
        s@ == t@,
        i <= s@.len(),
    ensures
        match condition_line(s@, i as int) {
            Some((e, l)) => r matches Some((e2, w)) && e2 == e && w@ == l && e <= s@.len(),
            None => r is None,
        },
{
    match run1_end(s, i, CharClass::Letter) {
        Some(p) => match run1_end(s, p, CharClass::Blank) {
            Some(b) => match condition_tail_at(s, t, b) {
                Some((e, c)) => Some((e, LineSource { property: slice_text(t, i, p), condition: c })),
                None => None,
            },
            None => None,
        },
        None => None,
    }
}

/// Where the delimiter between two lines from `i` ends.
pub fn line_delim_at(s: &Vec<char>, i: usize) -> (r: Option<usize>)
    requires
        i <= s@.len(),
    ensures
        opt_pos(r) == line_delim(s@, i as int),
        r matches Some(d) ==> d <= s@.len(),
{
    let c = match comment_at(s, i) {
        Some(e) => e,
        None => i,
    };
    if c < s.len() && s[c] == '\n' {
        Some(skip_seps(s, c + 1))
    } else {
        None
    }
}

pub open spec fn line_views(v: Seq<LineSource>) -> Seq<LineText> {
    v.map_values(|l: LineSource| l@)
}

pub open spec fn rule_views(v: Seq<RuleSource>) -> Seq<RuleText> {
    v.map_values(|r: RuleSource| r@)
}

/// The condition lines of a block from `i`, and where they end.
pub fn lines_at(s: &Vec<char>, t: &str, i: usize) -> (r: (usize, Vec<LineSource>))
    requires
        s@ == t@,
        i <= s@.len(),
    ensures
        lines(s@, i as int) == (r.0 as int, line_views(r.1@)),
        r.0 <= s@.len(),
{
    let mut acc: Vec<LineSource> = Vec::new();
    let mut j = i;
    match condition_line_at(s, t, i) {
        Some((e, l)) => {
            acc.push(l);
            j = e;
            proof {
                assert(line_views(acc@) =~= seq![l@]);
            }
        },
        None => {
            proof {
                assert(line_views(acc@) =~= Seq::<LineText>::empty());
            }
            return (i, acc);
        },
    }
    let ghost target = lines(s@, i as int);
    loop
        invariant
            s@ == t@,
            j <= s@.len(),
            target == lines(s@, i as int),
            target == more_lines(s@, j as int, line_views(acc@)),
        decreases s@.len() - j,
    {
        match line_delim_at(s, j) {
            Some(d) => match condition_line_at(s, t, d) {
                Some((e, l)) => {
                    if j < e && e <= s.len() {
                        let ghost before = line_views(acc@);
                        acc.push(l);
                        proof {
                            assert(line_views(acc@) =~= before.push(l@));
                        }
                        j = e;
                    } else {
                        return (j, acc);
                    }
                },
                None => {
                    return (j, acc);
                },
            },
            None => {
                return (j, acc);
            },
        }
    }
}

/// A block from `i`: where it ends, and its rules as text.
pub fn block_at(s: &Vec<char>, t: &str, i: usize) -> (r: Option<(usize, Vec<RuleSource>)>)
    requires
        s@ == t@,
        i <= s@.len(),
    ensures
        match block(s@, i as int) {
            Some((e, b)) => r matches Some((e2, w)) && e2 == e && rule_views(w@) == b && e
                <= s@.len(),
            None => r is None,
        },
{
    let a = match run1_end(s, i, CharClass::SelectorChar) {
        Some(a) => a,
        None => {
            return None;
        },
    };
    let b = match run1_end(s, a, CharClass::Blank) {
        Some(b) => b,
        None => {
            return None;
        },
    };
    if !(b < s.len() && s[b] == '{') {
        return None;
    }
    let m = match run1_end(s, b + 1, CharClass::Multispace) {
        Some(m) => m,
        None => {
            return None;
        },
    };
    let (l, ls) = lines_at(s, t, m);
    let m2 = match run1_end(s, l, CharClass::Multispace) {
        Some(m2) => m2,
        None => {
            return None;
        },
    };
    if !(m2 < s.len() && s[m2] == '}') {
        return None;
    }
    let sel = slice_text(t, i, a);
    let mut out: Vec<RuleSource> = Vec::new();
    let mut k: usize = 0;
    while k < ls.len()
        invariant
            k <= ls@.len(),
            i <= a <= s@.len(),
            rule_views(out@) == block_rules(sel@, line_views(ls@)).take(k as int),
        decreases ls@.len() - k,
    {
        let line = &ls[k];
        let cond = match &line.condition {
            ConditionSource::Equal(v) => ConditionSource::Equal(v.clone()),
            ConditionSource::Match(p) => ConditionSource::Match(p.clone()),
        };
        let ghost before = rule_views(out@);
        let item = RuleSource { selector: sel.clone(), property: line.property.clone(), condition: cond };
        proof {
            assert(item@ == block_rules(sel@, line_views(ls@))[k as int]);
        }
        out.push(item);
        k = k + 1;
        proof {
            assert(rule_views(out@) =~= before.push(item@));
            assert(rule_views(out@) =~= block_rules(sel@, line_views(ls@)).take(k as int));
        }
    }
    proof {
        assert(block_rules(sel@, line_views(ls@)).take(k as int) =~= block_rules(sel@, line_views(ls@)));
    }
    Some((m2 + 1, out))
}

pub open spec fn nested_views(v: Seq<Vec<RuleSource>>) -> Seq<Seq<RuleText>> {
    v.map_values(|b: Vec<RuleSource>| rule_views(b@))
}

/// The blocks from `i`, and where they end.
pub fn blocks_at(s: &Vec<char>, t: &str, i: usize) -> (r: (usize, Vec<Vec<RuleSource>>))
    requires
        s@ == t@,
        i <= s@.len(),
    ensures
        blocks(s@, i as int) == (r.0 as int, nested_views(r.1@)),
        r.0 <= s@.len(),
{
    let mut acc: Vec<Vec<RuleSource>> = Vec::new();
    let mut j = i;
    match block_at(s, t, i) {
        Some((e, b)) => {
            let ghost bv = rule_views(b@);
            acc.push(b);
            j = e;
            proof {
                assert(nested_views(acc@) =~= seq![bv]);
            }
        },
        None => {
            proof {
                assert(nested_views(acc@) =~= Seq::<Seq<RuleText>>::empty());
            }
            return (i, acc);
        },
    }
    let ghost target = blocks(s@, i as int);
    loop
        invariant
            s@ == t@,
            j <= s@.len(),
            target == blocks(s@, i as int),
            target == more_blocks(s@, j as int, nested_views(acc@)),
        decreases s@.len() - j,
    {
        match line_delim_at(s, j) {
            Some(d) => match block_at(s, t, d) {
                Some((e, b)) => {
                    if j < e && e <= s.len() {
                        let ghost before = nested_views(acc@);
                        let ghost bv = rule_views(b@);
                        acc.push(b);
                        proof {
                            assert(nested_views(acc@) =~= before.push(bv));
                        }
                        j = e;
                    } else {
                        return (j, acc);
                    }
                },
                None => {
                    return (j, acc);
                },
            },
            None => {
                return (j, acc);
            },
        }
    }
}

pub open spec fn vec_views<T>(v: Seq<Vec<T>>) -> Seq<Seq<T>> {
    v.map_values(|x: Vec<T>| x@)
}

/// The items of the inner vectors, one vector after another.
pub fn flatten<T>(nested: Vec<Vec<T>>) -> (r: Vec<T>)
    ensures
        r@ == vec_views(nested@).flatten_alt(),
{
    let ghost orig = nested@;
    let mut rest = nested;
    let mut stack: Vec<Vec<T>> = Vec::new();
    while rest.len() > 0
        invariant
            rest@ == orig.take(orig.len() - stack@.len()),
            stack@.len() <= orig.len(),
            forall|k: int| 0 <= k < stack@.len() ==> #[trigger] stack@[k] == orig[orig.len() - 1 - k],
        decreases rest@.len(),
    {
        match rest.pop() {
            Some(v) => {
                stack.push(v);
                proof {
                    assert(rest@ =~= orig.take(orig.len() - stack@.len()));
                }
            },
            None => {},
        }
    }
    let mut out: Vec<T> = Vec::new();
    proof {
        assert(vec_views(orig.take(0)) =~= Seq::<Seq<T>>::empty());
        assert(out@ =~= vec_views(orig.take(0)).flatten_alt());
    }
    while stack.len() > 0
        invariant
            stack@.len() <= orig.len(),
            forall|k: int| 0 <= k < stack@.len() ==> #[trigger] stack@[k] == orig[orig.len() - 1 - k],
            out@ == vec_views(orig.take(orig.len() - stack@.len())).flatten_alt(),
        decreases stack@.len(),
    {
        let ghost d = orig.len() - stack@.len();
        match stack.pop() {
            Some(v) => {
                let mut v = v;
                proof {
                    assert(v == orig[d]);
                    let x = vec_views(orig.take(d + 1));
                    assert(x.drop_last() =~= vec_views(orig.take(d)));
                    assert(x.last() == v@);
                }
                out.append(&mut v);
            },
            None => {},
        }
    }
    proof {
        assert(orig.take(orig.len() as int) =~= orig);
    }
    out
}

/// The rules of a whole file as text, or `None` where it breaks the grammar.
pub fn source_rules(t: &str) -> (r: Option<Vec<RuleSource>>)
    ensures
        match file_rules(t@) {
            Some(rs) => r matches Some(v) && rule_views(v@) == rs,
            None => r is None,
        },
{
    let s = chars_of(t);
    let a = skip_seps(&s, 0);
    let (b, bs) = blocks_at(&s, t, a);
    let c = skip_seps(&s, b);
    if c == s.len() {
        let ghost nv = nested_views(bs@);
        let flat = flatten(bs);
        proof {
            lemma_flatten_views(bs@);
        }
        Some(flat)
    } else {
        None
    }
}

proof fn lemma_flatten_views(v: Seq<Vec<RuleSource>>)
    ensures
        rule_views(vec_views(v).flatten_alt()) == nested_views(v).flatten_alt(),
    decreases v.len(),
{
    if v.len() > 0 {
        lemma_flatten_views(v.drop_last());
        assert(vec_views(v).drop_last() =~= vec_views(v.drop_last()));
        assert(nested_views(v).drop_last() =~= nested_views(v.drop_last()));
        assert(rule_views(vec_views(v).flatten_alt()) =~= rule_views(
            vec_views(v.drop_last()).flatten_alt(),
        ) + rule_views(v.last()@));
    } else {
        assert(rule_views(vec_views(v).flatten_alt()) =~= nested_views(v).flatten_alt());
    }
}

/// A file of separators alone (empty, or only whitespace and comments) holds
/// no block, and parses to no rules.
pub proof fn lemma_blank_file_has_no_rules(s: Seq<char>)
    requires
        seps(s, 0) == s.len(),
    ensures
        file_rules(s) == Some(Seq::<RuleText>::empty()),
        first_bad_pattern(Seq::<RuleText>::empty()) is None,
{
    let n = s.len() as int;
    assert(span(s, n, CharClass::SelectorChar) == n);
    assert(block(s, n) is None);
    assert(span(s, n, CharClass::Multispace) == n);
    assert(sep_end(s, n) is None);
    assert(seps(s, n) == n);
    assert(Seq::<Seq<RuleText>>::empty().flatten_alt() =~= Seq::<RuleText>::empty());
}

// ---------------------------------------------------------------- rule files

/// Why a rule file was refused.
#[derive(Debug, PartialEq)]
pub enum ParseError {
    /// The text does not follow the grammar.
    Syntax,
    /// A regular-expression literal does not compile; it holds the pattern.
    Pattern(String),
}

/// The first pattern among the rules that does not compile.
pub open spec fn first_bad_pattern(rs: Seq<RuleText>) -> Option<Seq<char>>
    decreases rs.len(),
{
    if rs.len() == 0 {
        None
    } else {
        match rs[0].condition {
            ConditionModel::Match(p) => if !pattern_compiles(p) {
                Some(p)
            } else {
                first_bad_pattern(rs.drop_first())
            },
            ConditionModel::Equal(_) => first_bad_pattern(rs.drop_first()),
        }
    }
}

/// `r` is the rule that the text `t` describes.
pub open spec fn rule_read_as(r: Rule, t: RuleText) -> bool {
    &&& r.selector.read_from(t.selector)
    &&& r.property@ == property_of(t.property)
    &&& r.condition@ == t.condition
}

/// Each rule of `v` is the one the text at its place in `rs` describes.
pub open spec fn rules_read_as(v: Seq<Rule>, rs: Seq<RuleText>) -> bool {
    &&& v.len() == rs.len()
    &&& forall|k: int| 0 <= k < rs.len() ==> rule_read_as(#[trigger] v[k], rs[k])
}

/// Parses a whole rule file, all or nothing: the rules of its blocks in file
/// order, one per condition line. A file that breaks the grammar gives
/// `Syntax`; one that follows it but holds a pattern that does not compile
/// gives `Pattern` with the first such pattern.
pub fn parse_rules(text: &str) -> (r: Result<Vec<Rule>, ParseError>)
    ensures
        match file_rules(text@) {
            None => r matches Err(ParseError::Syntax),
            Some(rs) => match first_bad_pattern(rs) {
                Some(p) => r matches Err(ParseError::Pattern(q)) && q@ == p,
                None => r matches Ok(v) && rules_read_as(v@, rs),
            },
        },
{
    let sources = match source_rules(text) {
        Some(v) => v,
        None => {
            return Err(ParseError::Syntax);
        },
    };
    let ghost rs = rule_views(sources@);
    let mut out: Vec<Rule> = Vec::new();
    let mut k: usize = 0;
    proof {
        assert(rs.skip(0) =~= rs);
        assert(out@ =~= Seq::<Rule>::empty());
    }
    while k < sources.len()
        invariant
            rs == rule_views(sources@),
            file_rules(text@) == Some(rs),
            k <= sources@.len(),
            first_bad_pattern(rs) == first_bad_pattern(rs.skip(k as int)),
            rules_read_as(out@, rs.take(k as int)),
        decreases sources@.len() - k,
    {
        let src = &sources[k];
        proof {
            assert(rs.skip(k as int).drop_first() =~= rs.skip(k + 1));
            assert(rs.skip(k as int)[0] == src@);
        }
        let condition = match &src.condition {
            ConditionSource::Equal(v) => Condition::Equal(v.clone()),
            ConditionSource::Match(p) => match Pattern::compile(p.as_str()) {
                Some(pat) => Condition::Match(pat),
                None => {
                    proof {
                        assert(rs.skip(k as int).len() > 0);
                        assert(first_bad_pattern(rs.skip(k as int)) == Some(p@));
                    }
                    return Err(ParseError::Pattern(p.clone()));
                },
            },
        };
        let rule = Rule {
            selector: Selector::new(src.selector.as_str()),
            property: Property::from_token(src.property.as_str()),
            condition,
        };
        out.push(rule);
        k = k + 1;
        proof {
            assert(rs.take(k as int).drop_last() =~= rs.take(k - 1));
            assert forall|m: int| 0 <= m < k implies rule_read_as(#[trigger] out@[m], rs.take(k as int)[m]) by {
                if m < k - 1 {
                    assert(rs.take(k as int)[m] == rs.take(k - 1)[m]);
                }
            }
        }
    }
    proof {
        assert(rs.take(k as int) =~= rs);
        assert(rs.skip(k as int) =~= Seq::<RuleText>::empty());
    }
    Ok(out)
}

} // verus!
