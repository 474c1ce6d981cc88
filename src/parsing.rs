//! Reading a language model's reply: fenced code blocks, the `FINAL(...)`
//! answer marker, and the `FINAL_ANSWER: ` line of interpreter output.
use crate::snapshot::Snapshot;
use crate::text::{
    chars_of, contains_char, contains_char_exec, contains_exec, contains_seq, is_ascii_alnum,
    is_ascii_alpha, is_white_space, lead, lower_of, occurs_at, occurs_at_exec, starts_with, string_of, trail,
    to_lower, trim_bounds, trimmed, white_space,
};
use vstd::prelude::*;

verus! {

// ---------------------------------------------------------------------------
// Fenced code blocks
// ---------------------------------------------------------------------------

pub open spec fn fence() -> Seq<char> {
    seq!['`', '`', '`']
}

pub open spec fn repl_open() -> Seq<char> {
    fence() + seq!['r', 'e', 'p', 'l', '\n']
}

pub open spec fn python_open() -> Seq<char> {
    fence() + seq!['p', 'y', 't', 'h', 'o', 'n', '\n']
}

/// Length of the opening fence that starts at `p`, or 0 where none does.
pub open spec fn open_len(t: Seq<char>, p: int) -> int {
    if occurs_at(t, p, repl_open()) {
        8
    } else if occurs_at(t, p, python_open()) {
        10
    } else {
        0
    }
}

/// A line holding only three backticks starts at `c`, in a block whose text
/// starts at `s`.
pub open spec fn fence_close(t: Seq<char>, s: int, c: int) -> bool {
    &&& s <= c
    &&& occurs_at(t, c, fence())
    &&& (c == s || t[c - 1] == '\n')
    &&& (c + 3 == t.len() || t[c + 3] == '\n')
}

/// The first closing line at or after `c`.
pub open spec fn close_from(t: Seq<char>, s: int, c: int) -> Option<int>
    decreases t.len() - c,
{
    if c < s || c + 3 > t.len() {
        None
    } else if fence_close(t, s, c) {
        Some(c)
    } else {
        close_from(t, s, c + 1)
    }
}

pub proof fn lemma_close_from_bounds(t: Seq<char>, s: int, c: int)
    ensures
        close_from(t, s, c) matches Some(e) ==> c <= e && e + 3 <= t.len() && fence_close(
            t,
            s,
            e,
        ),
    decreases t.len() - c,
{
    if c < s || c + 3 > t.len() {
    } else if fence_close(t, s, c) {
    } else {
        lemma_close_from_bounds(t, s, c + 1);
    }
}

/// The blocks that start at or after `p`: where a block opens, its text up
/// to its closing line; the search then goes on after that line.
pub open spec fn blocks_from(t: Seq<char>, p: int) -> Seq<Seq<char>>
    decreases t.len() - p,
    via blocks_from_decreases
{
    if p < 0 || p >= t.len() {
        Seq::empty()
    } else if open_len(t, p) > 0 {
        let s = p + open_len(t, p);
        match close_from(t, s, s) {
            Some(c) => seq![t.subrange(s, c)] + blocks_from(t, c + 3),
            None => blocks_from(t, p + 1),
        }
    } else {
        blocks_from(t, p + 1)
    }
}

#[via_fn]
proof fn blocks_from_decreases(t: Seq<char>, p: int) {
    if 0 <= p < t.len() && open_len(t, p) > 0 {
        let s = p + open_len(t, p);
        lemma_close_from_bounds(t, s, s);
    }
}

/// The texts of all `repl` and `python` blocks of `t`, in order.
pub open spec fn code_blocks(t: Seq<char>) -> Seq<Seq<char>> {
    blocks_from(t, 0)
}

/// End of the closing line of the first block at or after `p`.
pub open spec fn first_block_end(t: Seq<char>, p: int) -> Option<int>
    decreases t.len() - p,
{
    if p < 0 || p >= t.len() {
        None
    } else if open_len(t, p) > 0 {
        let s = p + open_len(t, p);
        match close_from(t, s, s) {
            Some(c) => Some(c + 3),
            None => first_block_end(t, p + 1),
        }
    } else {
        first_block_end(t, p + 1)
    }
}

pub fn fence_exec() -> (r: Vec<char>)
    ensures
        r@ == fence(),
{
    let r = vec!['`', '`', '`'];
    assert(r@ =~= fence());
    r
}

fn open_len_exec(t: &Vec<char>, p: usize, ro: &Vec<char>, po: &Vec<char>) -> (r: usize)
    requires
        ro@ == repl_open(),
        po@ == python_open(),
    ensures
        r == open_len(t@, p as int),
{
    if occurs_at_exec(t, p, ro) {
        8
    } else if occurs_at_exec(t, p, po) {
        10
    } else {
        0
    }
}

fn close_from_exec(t: &Vec<char>, s: usize, f: &Vec<char>) -> (r: Option<usize>)
    requires
        f@ == fence(),
        s <= t@.len(),
    ensures
        match r {
            Some(c) => close_from(t@, s as int, s as int) == Some(c as int),
            None => close_from(t@, s as int, s as int) is None,
        },
{
    let mut c = s;
    while c < t.len() && t.len() - c >= 3
        invariant
            s <= c <= t@.len(),
            f@ == fence(),
            close_from(t@, s as int, s as int) == close_from(t@, s as int, c as int),
        decreases t.len() - c,
    {
        if occurs_at_exec(t, c, f) && (c == s || t[c - 1] == '\n') && (c + 3 == t.len() || t[c
            + 3] == '\n') {
            return Some(c);
        }
        c = c + 1;
    }
    None
}

fn opened_fences() -> (r: (Vec<char>, Vec<char>, Vec<char>))
    ensures
        r.0@ == repl_open(),
        r.1@ == python_open(),
        r.2@ == fence(),
{
    let ro = vec!['`', '`', '`', 'r', 'e', 'p', 'l', '\n'];
    let po = vec!['`', '`', '`', 'p', 'y', 't', 'h', 'o', 'n', '\n'];
    assert(ro@ =~= repl_open());
    assert(po@ =~= python_open());
    (ro, po, fence_exec())
}

pub open spec fn views(v: Seq<String>) -> Seq<Seq<char>> {
    v.map_values(|s: String| s@)
}

/// Extracts the text of every fenced `repl` or `python` block: what lies
/// between the opening fence line and the next line that holds only three
/// backticks.
pub fn extract_code_blocks(text: &str) -> (r: Vec<String>)
    ensures
        views(r@) == code_blocks(text@),
{
    let t = chars_of(text);
    let (ro, po, f) = opened_fences();
    let mut out: Vec<String> = Vec::new();
    let mut p: usize = 0;
    while p < t.len()
        invariant
            ro@ == repl_open(),
            po@ == python_open(),
            f@ == fence(),
            t@ == text@,
            code_blocks(t@) == views(out@) + blocks_from(t@, p as int),
        decreases t.len() - p,
    {
        let n = open_len_exec(&t, p, &ro, &po);
        if n > 0 {
            let s = p + n;
            match close_from_exec(&t, s, &f) {
                Some(c) => {
                    proof {
                        lemma_close_from_bounds(t@, s as int, s as int);
                    }
                    let b = string_of(&t, s, c);
                    let ghost before = out@;
                    out.push(b);
                    proof {
                        assert(views(out@) =~= views(before) + seq![t@.subrange(s as int, c as int)]);
                    }
                    p = c + 3;
                },
                None => {
                    p = p + 1;
                },
            }
        } else {
            p = p + 1;
        }
    }
    assert(views(out@) + blocks_from(t@, p as int) =~= views(out@));
    out
}


/// End of the closing line of the first block of `t`, if it has one.
pub fn first_block_end_exec(t: &Vec<char>) -> (r: Option<usize>)
    ensures
        match r {
            Some(e) => first_block_end(t@, 0) == Some(e as int) && e <= t@.len(),
            None => first_block_end(t@, 0) is None,
        },
{
    let (ro, po, f) = opened_fences();
    let mut p: usize = 0;
    while p < t.len()
        invariant
            ro@ == repl_open(),
            po@ == python_open(),
            f@ == fence(),
            first_block_end(t@, 0) == first_block_end(t@, p as int),
        decreases t.len() - p,
    {
        let n = open_len_exec(t, p, &ro, &po);
        if n > 0 {
            let s = p + n;
            match close_from_exec(t, s, &f) {
                Some(c) => {
                    proof {
                        lemma_close_from_bounds(t@, s as int, s as int);
                    }
                    return Some(c + 3);
                },
                None => {},
            }
        }
        p = p + 1;
    }
    None
}

// ---------------------------------------------------------------------------
// The answer line of interpreter output
// ---------------------------------------------------------------------------

/// Index of the line feed that ends the line starting at `i`, or the length
/// of `s` for the last line.
pub open spec fn line_end(s: Seq<char>, i: int) -> int
    decreases s.len() - i,
{
    if i < 0 || i >= s.len() || s[i] == '\n' {
        i
    } else {
        line_end(s, i + 1)
    }
}

pub proof fn lemma_line_end_bounds(s: Seq<char>, i: int)
    requires
        0 <= i <= s.len(),
    ensures
        i <= line_end(s, i) <= s.len(),
        line_end(s, i) < s.len() ==> s[line_end(s, i)] == '\n',
    decreases s.len() - i,
{
    if i < s.len() && s[i] != '\n' {
        lemma_line_end_bounds(s, i + 1);
    }
}

/// The line `s[i..j]`, without the carriage return of a `\r\n` ending.
pub open spec fn line_text(s: Seq<char>, i: int, j: int) -> Seq<char> {
    let l = s.subrange(i, j);
    if j < s.len() && l.len() > 0 && l.last() == '\r' {
        l.drop_last()
    } else {
        l
    }
}

pub open spec fn answer_tag() -> Seq<char> {
    "FINAL_ANSWER: "@
}

/// The rest of the first line at or after `i` that starts with the answer tag.
pub open spec fn stdout_answer_from(s: Seq<char>, i: int) -> Option<Seq<char>>
    decreases s.len() + 1 - i,
    via stdout_answer_decreases
{
    if i < 0 || i >= s.len() {
        None
    } else {
        let l = line_text(s, i, line_end(s, i));
        if starts_with(l, answer_tag()) {
            Some(l.subrange(answer_tag().len() as int, l.len() as int))
        } else {
            stdout_answer_from(s, line_end(s, i) + 1)
        }
    }
}

#[via_fn]
proof fn stdout_answer_decreases(s: Seq<char>, i: int) {
    if 0 <= i < s.len() {
        lemma_line_end_bounds(s, i);
    }
}

pub open spec fn stdout_answer(s: Seq<char>) -> Option<Seq<char>> {
    stdout_answer_from(s, 0)
}

pub open spec fn opt_view(o: Option<String>) -> Option<Seq<char>> {
    match o {
        Some(s) => Some(s@),
        None => None,
    }
}

/// The answer that interpreter output announces: the rest of its first line
/// that starts with `FINAL_ANSWER: `.
pub fn extract_final_answer_from_stdout(stdout: &str) -> (r: Option<String>)
    ensures
        opt_view(r) == stdout_answer(stdout@),
{
    let s = chars_of(stdout);
    let tag = chars_of("FINAL_ANSWER: ");
    let mut i: usize = 0;
    while i < s.len()
        invariant
            s@ == stdout@,
            tag@ == answer_tag(),
            i <= s@.len(),
            stdout_answer(s@) == stdout_answer_from(s@, i as int),
        decreases s.len() - i,
    {
        let mut j = i;
        while j < s.len() && s[j] != '\n'
            invariant
                i <= j <= s@.len(),
                i < s@.len(),
                line_end(s@, i as int) == line_end(s@, j as int),
            decreases s.len() - j,
        {
            j = j + 1;
        }
        let mut e = j;
        if j < s.len() && j > i && s[j - 1] == '\r' {
            e = j - 1;
        }
        proof {
            assert(s@.subrange(i as int, e as int) =~= line_text(s@, i as int, j as int));
        }
        if e - i >= tag.len() && occurs_at_exec(&s, i, &tag) {
            proof {
                assert(s@.subrange(i as int, e as int).subrange(0, tag@.len() as int)
                    =~= s@.subrange(i as int, i + tag@.len()));
                assert(s@.subrange(i + tag@.len(), e as int) =~= s@.subrange(i as int, e as int).subrange(
                    tag@.len() as int,
                    e - i,
                ));
            }
            return Some(string_of(&s, i + tag.len(), e));
        }
        proof {
            if starts_with(line_text(s@, i as int, j as int), answer_tag()) {
                assert(s@.subrange(i as int, e as int).subrange(0, tag@.len() as int)
                    =~= s@.subrange(i as int, i + tag@.len()));
            }
        }
        proof {
            lemma_line_end_bounds(s@, i as int);
        }
        if j == s.len() {
            assert(stdout_answer_from(s@, j + 1) is None);
            return None;
        }
        i = j + 1;
    }
    None
}


// ---------------------------------------------------------------------------
// Pieces of the answer marker
// ---------------------------------------------------------------------------

pub open spec fn ident_start(c: char) -> bool {
    is_ascii_alpha(c) || c == '_'
}

pub open spec fn word_char(c: char) -> bool {
    is_ascii_alnum(c) || c == '_'
}

/// `s` matches `[A-Za-z_][A-Za-z0-9_]*`.
pub open spec fn is_identifier_spec(s: Seq<char>) -> bool {
    &&& s.len() > 0
    &&& ident_start(s[0])
    &&& forall|i: int| 1 <= i < s.len() ==> word_char(s[i])
}

fn is_identifier_chars(v: &Vec<char>, from: usize, to: usize) -> (r: bool)
    requires
        from <= to <= v@.len(),
    ensures
        r == is_identifier_spec(v@.subrange(from as int, to as int)),
{
    let ghost s = v@.subrange(from as int, to as int);
    if from == to {
        return false;
    }
    let c = v[from];
    if !(('a' <= c && c <= 'z') || ('A' <= c && c <= 'Z') || c == '_') {
        return false;
    }
    let mut i = from + 1;
    while i < to
        invariant
            from < i <= to <= v@.len(),
            s == v@.subrange(from as int, to as int),
            forall|j: int| 1 <= j < i - from ==> word_char(s[j]),
        decreases to - i,
    {
        let c = v[i];
        if !(('a' <= c && c <= 'z') || ('A' <= c && c <= 'Z') || ('0' <= c && c <= '9') || c
            == '_') {
            assert(!word_char(s[i - from]));
            return false;
        }
        i = i + 1;
    }
    true
}

/// Whether `s` is a name: a letter or underscore, then letters, digits and
/// underscores.
pub fn is_identifier(s: &str) -> (r: bool)
    ensures
        r == is_identifier_spec(s@),
{
    let v = chars_of(s);
    assert(v@.subrange(0, v@.len() as int) =~= v@);
    is_identifier_chars(&v, 0, v.len())
}

/// An opening parenthesis at `i` directly follows a name.
pub open spec fn call_at(s: Seq<char>, i: int) -> bool {
    &&& 0 <= i < s.len()
    &&& s[i] == '('
    &&& exists|j: int|
        0 <= j < i && ident_start(s[j]) && forall|k: int| j <= k < i ==> word_char(s[k])
}

/// `s` reads like code: a call such as `f(`, or one of `+ * / [`.
pub open spec fn has_code_patterns_spec(s: Seq<char>) -> bool {
    ||| exists|i: int| call_at(s, i)
    ||| contains_char(s, '+')
    ||| contains_char(s, '*')
    ||| contains_char(s, '/')
    ||| contains_char(s, '[')
}

fn has_call(v: &Vec<char>) -> (r: bool)
    ensures
        r == exists|i: int| call_at(v@, i),
{
    let ghost s = v@;
    let mut in_name = false;
    let mut i: usize = 0;
    while i < v.len()
        invariant
            s == v@,
            i <= s.len(),
            in_name <==> exists|j: int|
                0 <= j < i && ident_start(s[j]) && forall|k: int| j <= k < i ==> word_char(s[k]),
            forall|m: int| 0 <= m < i ==> !call_at(s, m),
        decreases v.len() - i,
    {
        let c = v[i];
        if ('a' <= c && c <= 'z') || ('A' <= c && c <= 'Z') || c == '_' {
            assert(ident_start(s[i as int]));
            in_name = true;
        } else if c == '(' && in_name {
            assert(call_at(s, i as int));
            return true;
        } else if !(('0' <= c && c <= '9') || ('a' <= c && c <= 'z') || ('A' <= c && c <= 'Z')
            || c == '_') {
            proof {
                assert(!word_char(s[i as int]));
                assert forall|j: int| 0 <= j < i + 1 && ident_start(s[j]) implies !(forall|
                    k: int,
                | j <= k < i + 1 ==> word_char(s[k])) by {
                    assert(j <= i && !word_char(s[i as int]));
                }
            }
            in_name = false;
        } else {
            // a digit: a name that is open stays open, and none starts
            proof {
                assert(word_char(s[i as int]) && !ident_start(s[i as int]));
                if in_name {
                    let j = choose|j: int|
                        0 <= j < i && ident_start(s[j]) && forall|k: int|
                            j <= k < i ==> word_char(s[k]);
                    assert(forall|k: int| j <= k < i + 1 ==> word_char(s[k]));
                } else {
                    assert forall|j: int| 0 <= j < i + 1 && ident_start(s[j]) implies !(forall|
                        k: int,
                    | j <= k < i + 1 ==> word_char(s[k])) by {
                        if j == i {
                        } else {
                            assert(!(forall|k: int| j <= k < i ==> word_char(s[k])));
                        }
                    }
                }
            }
        }
        proof {
            if !(c == '(' && in_name) {
                assert(!call_at(s, i as int)) by {
                    if s[i as int] == '(' {
                    }
                }
            }
        }
        i = i + 1;
    }
    false
}

fn has_code_patterns_chars(v: &Vec<char>) -> (r: bool)
    ensures
        r == has_code_patterns_spec(v@),
{
    has_call(v) || contains_char_exec(v, '+') || contains_char_exec(v, '*') || contains_char_exec(
        v,
        '/',
    ) || contains_char_exec(v, '[')
}

/// Whether `text` reads like code: a call such as `f(`, or one of `+ * / [`.
pub fn has_code_patterns(text: &str) -> (r: bool)
    ensures
        r == has_code_patterns_spec(text@),
{
    has_code_patterns_chars(&chars_of(text))
}

/// Lowercased text that opens or contains one of the phrases of a model
/// describing its own output.
pub open spec fn prose_marked(lower: Seq<char>) -> bool {
    ||| starts_with(lower, "output from"@)
    ||| starts_with(lower, "result of"@)
    ||| starts_with(lower, "this is the"@)
    ||| starts_with(lower, "this is a"@)
    ||| starts_with(lower, "the result"@)
    ||| starts_with(lower, "here is"@)
    ||| contains_seq(lower, "executing code"@)
    ||| contains_seq(lower, "execution of"@)
    ||| contains_seq(lower, "demonstration of"@)
    ||| contains_seq(lower, "example of how"@)
}

/// Text that describes an answer instead of being one.
pub open spec fn looks_like_prose_spec(s: Seq<char>) -> bool {
    !has_code_patterns_spec(s) && prose_marked(lower_of(s))
}

fn starts_with_lit(s: &Vec<char>, p: &str) -> (r: bool)
    ensures
        r == starts_with(s@, p@),
{
    occurs_at_exec(s, 0, &chars_of(p))
}

fn contains_lit(s: &Vec<char>, p: &str) -> (r: bool)
    ensures
        r == contains_seq(s@, p@),
{
    contains_exec(s, &chars_of(p))
}

/// Whether lowercased text opens or holds one of the phrases of a model
/// describing its own output.
pub fn prose_marked_text(lower: &str) -> (r: bool)
    ensures
        r == prose_marked(lower@),
{
    let lower = chars_of(lower);
    starts_with_lit(&lower, "output from") || starts_with_lit(&lower, "result of")
        || starts_with_lit(&lower, "this is the") || starts_with_lit(&lower, "this is a")
        || starts_with_lit(&lower, "the result") || starts_with_lit(&lower, "here is")
        || contains_lit(&lower, "executing code") || contains_lit(&lower, "execution of")
        || contains_lit(&lower, "demonstration of") || contains_lit(&lower, "example of how")
}

/// Whether `text` is descriptive prose, such as "Output from executing
/// code", rather than an answer. Text that reads like code never is.
pub fn looks_like_prose(text: &str) -> (r: bool)
    ensures
        r == looks_like_prose_spec(text@),
{
    if has_code_patterns(text) {
        return false;
    }
    prose_marked_text(to_lower(text).as_str())
}

/// `s` with each `\n` turned into a line feed and each `\t` into a tab,
/// read from left to right.
pub open spec fn unescape(s: Seq<char>) -> Seq<char>
    decreases s.len(),
{
    if s.len() == 0 {
        s
    } else if s.len() >= 2 && s[0] == '\\' && s[1] == 'n' {
        seq!['\n'] + unescape(s.subrange(2, s.len() as int))
    } else if s.len() >= 2 && s[0] == '\\' && s[1] == 't' {
        seq!['\t'] + unescape(s.subrange(2, s.len() as int))
    } else {
        seq![s[0]] + unescape(s.subrange(1, s.len() as int))
    }
}

/// `s` is enclosed in a matching pair of double or single quotes.
pub open spec fn quoted(s: Seq<char>) -> bool {
    s.len() >= 2 && ((s[0] == '"' && s.last() == '"') || (s[0] == '\'' && s.last() == '\''))
}

/// A quoted literal stripped of its quotes and unescaped; any other text as
/// it is.
pub open spec fn literal_value(s: Seq<char>) -> Seq<char> {
    let t = trimmed(s);
    if quoted(t) {
        unescape(t.subrange(1, t.len() - 1))
    } else {
        s
    }
}

fn unescape_range(v: &Vec<char>, from: usize, to: usize) -> (r: String)
    requires
        from <= to <= v@.len(),
    ensures
        r@ == unescape(v@.subrange(from as int, to as int)),
{
    let ghost all = v@.subrange(from as int, to as int);
    let mut out = String::new();
    let mut i = from;
    while i < to
        invariant
            from <= i <= to <= v@.len(),
            all == v@.subrange(from as int, to as int),
            out@ + unescape(v@.subrange(i as int, to as int)) == unescape(all),
        decreases to - i,
    {
        let ghost rest = v@.subrange(i as int, to as int);
        let ghost before = out@;
        if i + 1 < to && v[i] == '\\' && v[i + 1] == 'n' {
            push_char_nl(&mut out);
            proof {
                assert(rest.subrange(2, rest.len() as int) =~= v@.subrange(i + 2, to as int));
            }
            i = i + 2;
        } else if i + 1 < to && v[i] == '\\' && v[i + 1] == 't' {
            push_char_tab(&mut out);
            proof {
                assert(rest.subrange(2, rest.len() as int) =~= v@.subrange(i + 2, to as int));
            }
            i = i + 2;
        } else {
            crate::text::push_char(&mut out, v[i]);
            proof {
                assert(rest.subrange(1, rest.len() as int) =~= v@.subrange(i + 1, to as int));
            }
            i = i + 1;
        }
        proof {
            assert(out@ + unescape(v@.subrange(i as int, to as int)) =~= before + unescape(rest));
        }
    }
    proof {
        assert(v@.subrange(i as int, to as int) =~= Seq::<char>::empty());
    }
    out
}

fn push_char_nl(s: &mut String)
    ensures
        final(s)@ == old(s)@ + seq!['\n'],
{
    crate::text::push_char(s, '\n');
    assert(s@ =~= old(s)@ + seq!['\n']);
}

fn push_char_tab(s: &mut String)
    ensures
        final(s)@ == old(s)@ + seq!['\t'],
{
    crate::text::push_char(s, '\t');
    assert(s@ =~= old(s)@ + seq!['\t']);
}

fn literal_value_chars(v: &Vec<char>) -> (r: String)
    ensures
        r@ == literal_value(v@),
{
    let (lo, hi) = trim_bounds(v, 0, v.len());
    proof {
        assert(v@.subrange(0, v@.len() as int) =~= v@);
    }
    let ghost t = trimmed(v@);
    if hi - lo >= 2 && ((v[lo] == '"' && v[hi - 1] == '"') || (v[lo] == '\'' && v[hi - 1]
        == '\'')) {
        proof {
            assert(t.subrange(1, t.len() - 1) =~= v@.subrange(lo + 1, hi - 1));
        }
        unescape_range(v, lo + 1, hi - 1)
    } else {
        proof {
            if quoted(t) {
                assert(t[0] == v@[lo as int]);
                assert(t.last() == v@[hi - 1]);
            }
        }
        string_of(v, 0, v.len())
    }
}

/// Strips a pair of matching quotes from the trimmed text and turns `\n`
/// and `\t` into a line feed and a tab; text that is not quoted comes back
/// as it is.
pub fn unescape_string_literal(s: &str) -> (r: String)
    ensures
        r@ == literal_value(s@),
{
    literal_value_chars(&chars_of(s))
}


// ---------------------------------------------------------------------------
// The answer marker
// ---------------------------------------------------------------------------

pub open spec fn marker() -> Seq<char> {
    "FINAL("@
}

/// The eye of an emoticon such as `:)` or `;)`.
pub open spec fn emoticon_eye(c: char) -> bool {
    c == ':' || c == ';' || c == '=' || c == '8' || c == 'X' || c == 'x' || c == 'D' || c == 'P'
        || c == 'p'
}

/// The marker may start at `k`: at the start of the text, or after white
/// space or a colon.
pub open spec fn valid_position(t: Seq<char>, k: int) -> bool {
    k == 0 || t[k - 1] == '\n' || white_space(t[k - 1]) || t[k - 1] == ':'
}

/// Scans `t` from `i` for the parenthesis that closes one opened just before
/// `start`. `depth` counts the parentheses still open; `quote` is the quote
/// of the string literal being read, if any. A backslash escapes a quote.
/// With `emo`, a `)` right after an emoticon eye does not close.
pub open spec fn close_of(
    t: Seq<char>,
    start: int,
    i: int,
    depth: nat,
    quote: Option<char>,
    emo: bool,
) -> Option<int>
    decreases t.len() - i,
{
    if i < 0 || i >= t.len() {
        None
    } else {
        let c = t[i];
        match quote {
            Some(q) => {
                if c == q && !(i > start && t[i - 1] == '\\') {
                    close_of(t, start, i + 1, depth, None, emo)
                } else {
                    close_of(t, start, i + 1, depth, quote, emo)
                }
            },
            None => {
                if c == '"' || c == '\'' {
                    close_of(t, start, i + 1, depth, Some(c), emo)
                } else if c == '(' {
                    close_of(t, start, i + 1, depth + 1, None, emo)
                } else if c == ')' {
                    if depth <= 1 {
                        if emo && i > start && emoticon_eye(t[i - 1]) {
                            close_of(t, start, i + 1, 1, None, emo)
                        } else {
                            Some(i)
                        }
                    } else {
                        close_of(t, start, i + 1, (depth - 1) as nat, None, emo)
                    }
                } else {
                    close_of(t, start, i + 1, depth, None, emo)
                }
            },
        }
    }
}

pub proof fn lemma_close_of_bounds(
    t: Seq<char>,
    start: int,
    i: int,
    depth: nat,
    quote: Option<char>,
    emo: bool,
)
    ensures
        close_of(t, start, i, depth, quote, emo) matches Some(e) ==> i <= e < t.len(),
    decreases t.len() - i,
{
    if 0 <= i < t.len() {
        let c = t[i];
        lemma_close_of_bounds(t, start, i + 1, depth, None, emo);
        lemma_close_of_bounds(t, start, i + 1, depth, quote, emo);
        lemma_close_of_bounds(t, start, i + 1, depth, Some(c), emo);
        lemma_close_of_bounds(t, start, i + 1, depth + 1, None, emo);
        lemma_close_of_bounds(t, start, i + 1, 1, None, emo);
        if depth > 1 {
            lemma_close_of_bounds(t, start, i + 1, (depth - 1) as nat, None, emo);
        }
    }
}

/// Where the marker's content ends: the close found when emoticons are
/// skipped, or else the first balanced close.
pub open spec fn closing(t: Seq<char>, start: int) -> Option<int> {
    match close_of(t, start, start, 1, None, true) {
        Some(e) => Some(e),
        None => close_of(t, start, start, 1, None, false),
    }
}

/// The answer of the first acceptable marker at or after `k`. Prose is
/// passed over; content that names a bound string stands for its value;
/// other content is read as a literal.
pub open spec fn final_from(t: Seq<char>, locals: Map<Seq<char>, Seq<char>>, k: int) -> Option<
    Seq<char>,
>
    decreases t.len() - k,
    via final_from_decreases
{
    if k < 0 || k >= t.len() {
        None
    } else if occurs_at(t, k, marker()) && valid_position(t, k) {
        let start = k + marker().len();
        match closing(t, start) {
            Some(e) => {
                let content = trimmed(t.subrange(start, e));
                if looks_like_prose_spec(content) {
                    final_from(t, locals, e + 1)
                } else if is_identifier_spec(content) && locals.contains_key(content) {
                    Some(locals[content])
                } else {
                    Some(literal_value(content))
                }
            },
            None => final_from(t, locals, k + 1),
        }
    } else {
        final_from(t, locals, k + 1)
    }
}

#[via_fn]
proof fn final_from_decreases(t: Seq<char>, locals: Map<Seq<char>, Seq<char>>, k: int) {
    let start = k + marker().len();
    lemma_close_of_bounds(t, start, start, 1, None, true);
    lemma_close_of_bounds(t, start, start, 1, None, false);
}

/// The answer that the text `t` gives through a `FINAL(...)` marker.
pub open spec fn final_answer(t: Seq<char>, locals: Map<Seq<char>, Seq<char>>) -> Option<
    Seq<char>,
> {
    final_from(t, locals, 0)
}

fn find_close(t: &Vec<char>, start: usize, emo: bool) -> (r: Option<usize>)
    requires
        1 <= start <= t@.len(),
    ensures
        match r {
            Some(e) => close_of(t@, start as int, start as int, 1, None, emo) == Some(e as int),
            None => close_of(t@, start as int, start as int, 1, None, emo) is None,
        },
{
    let mut i = start;
    let mut depth: usize = 1;
    let mut quote: Option<char> = None;
    while i < t.len()
        invariant
            1 <= start <= i <= t@.len(),
            1 <= depth <= i - start + 1,
            close_of(t@, start as int, start as int, 1, None, emo) == close_of(
                t@,
                start as int,
                i as int,
                depth as nat,
                quote,
                emo,
            ),
        decreases t.len() - i,
    {
        let c = t[i];
        match quote {
            Some(q) => {
                if c == q && !(i > start && t[i - 1] == '\\') {
                    quote = None;
                }
            },
            None => {
                if c == '"' || c == '\'' {
                    quote = Some(c);
                } else if c == '(' {
                    depth = depth + 1;
                } else if c == ')' {
                    if depth <= 1 {
                        if emo && i > start && (t[i - 1] == ':' || t[i - 1] == ';' || t[i - 1]
                            == '=' || t[i - 1] == '8' || t[i - 1] == 'X' || t[i - 1] == 'x'
                            || t[i - 1] == 'D' || t[i - 1] == 'P' || t[i - 1] == 'p') {
                            depth = 1;
                        } else {
                            return Some(i);
                        }
                    } else {
                        depth = depth - 1;
                    }
                }
            },
        }
        i = i + 1;
    }
    None
}

fn valid_position_exec(t: &Vec<char>, k: usize) -> (r: bool)
    requires
        k <= t@.len(),
    ensures
        r == valid_position(t@, k as int),
{
    k == 0 || t[k - 1] == '\n' || is_white_space(t[k - 1]) || t[k - 1] == ':'
}

/// Finds the answer given by the first acceptable `FINAL(...)` marker of
/// `text`, resolving a bare name through `locals`.
pub fn extract_final_answer_raw(text: &str, locals: &Snapshot) -> (r: Option<String>)
    ensures
        opt_view(r) == final_answer(text@, locals@),
{
    let t = chars_of(text);
    let m = chars_of("FINAL(");
    proof {
        reveal_strlit("FINAL(");
    }
    let mut k: usize = 0;
    while k < t.len()
        invariant
            t@ == text@,
            m@ == marker(),
            m@.len() == 6,
            final_answer(t@, locals@) == final_from(t@, locals@, k as int),
        decreases t.len() - k,
    {
        if occurs_at_exec(&t, k, &m) && valid_position_exec(&t, k) {
            let start = k + m.len();
            let found = match find_close(&t, start, true) {
                Some(e) => Some(e),
                None => find_close(&t, start, false),
            };
            proof {
                lemma_close_of_bounds(t@, start as int, start as int, 1, None, true);
                lemma_close_of_bounds(t@, start as int, start as int, 1, None, false);
            }
            match found {
                Some(e) => {
                    let (lo, hi) = trim_bounds(&t, start, e);
                    let content = string_of(&t, lo, hi);
                    if looks_like_prose(&content) {
                        k = e + 1;
                        continue ;
                    }
                    if is_identifier_chars(&t, lo, hi) {
                        match locals.get(&content) {
                            Some(v) => {
                                return Some(v);
                            },
                            None => {},
                        }
                    }
                    return Some(unescape_string_literal(&content));
                },
                None => {},
            }
        }
        k = k + 1;
    }
    None
}

/// Finds the answer given by the first acceptable `FINAL(...)` marker of
/// `text`, with no names to resolve.
pub fn extract_final_answer(text: &str) -> (r: Option<String>)
    ensures
        opt_view(r) == final_answer(text@, Map::empty()),
{
    extract_final_answer_raw(text, &Snapshot::new())
}

/// Finds the answer of a `FINAL("literal")` or `FINAL(name)` marker; the
/// same as [`extract_final_answer_raw`].
pub fn extract_answer(text: &str, locals: &Snapshot) -> (r: Option<String>)
    ensures
        opt_view(r) == final_answer(text@, locals@),
{
    extract_final_answer_raw(text, locals)
}


/// The first white space character at or after `i`.
pub open spec fn first_white(s: Seq<char>, i: int) -> Option<int>
    decreases s.len() - i,
{
    if i < 0 || i >= s.len() {
        None
    } else if white_space(s[i]) {
        Some(i)
    } else {
        first_white(s, i + 1)
    }
}

pub fn first_white_exec(v: &Vec<char>) -> (r: Option<usize>)
    ensures
        match r {
            Some(i) => first_white(v@, 0) == Some(i as int) && i < v@.len(),
            None => first_white(v@, 0) is None,
        },
{
    let mut i: usize = 0;
    while i < v.len()
        invariant
            i <= v@.len(),
            first_white(v@, 0) == first_white(v@, i as int),
        decreases v.len() - i,
    {
        if is_white_space(v[i]) {
            return Some(i);
        }
        i = i + 1;
    }
    None
}


// ---------------------------------------------------------------------------
// Laws of the answer marker
// ---------------------------------------------------------------------------

pub open spec fn shifted(o: Option<int>) -> Option<int> {
    match o {
        Some(e) => Some(e + 1),
        None => None,
    }
}

/// Scanning for the close is unaffected by a character put in front.
pub proof fn lemma_close_of_shift(
    p: char,
    t: Seq<char>,
    start: int,
    i: int,
    depth: nat,
    quote: Option<char>,
    emo: bool,
)
    requires
        0 <= start <= i,
    ensures
        close_of(seq![p] + t, start + 1, i + 1, depth, quote, emo) == shifted(
            close_of(t, start, i, depth, quote, emo),
        ),
    decreases t.len() - i,
{
    let u = seq![p] + t;
    assert(u.len() == t.len() + 1);
    if i < t.len() {
        assert(u[i + 1] == t[i]);
        if i > start {
            assert(u[i] == t[i - 1]);
        }
        let c = t[i];
        lemma_close_of_shift(p, t, start, i + 1, depth, None, emo);
        lemma_close_of_shift(p, t, start, i + 1, depth, quote, emo);
        lemma_close_of_shift(p, t, start, i + 1, depth, Some(c), emo);
        lemma_close_of_shift(p, t, start, i + 1, depth + 1, None, emo);
        lemma_close_of_shift(p, t, start, i + 1, 1, None, emo);
        if depth > 1 {
            lemma_close_of_shift(p, t, start, i + 1, (depth - 1) as nat, None, emo);
        }
    }
}

/// Past the first position, reading for the marker is unaffected by a
/// character put in front.
pub proof fn lemma_final_from_shift(
    p: char,
    t: Seq<char>,
    locals: Map<Seq<char>, Seq<char>>,
    k: int,
)
    requires
        k >= 1,
    ensures
        final_from(seq![p] + t, locals, k + 1) == final_from(t, locals, k),
    decreases t.len() - k,
{
    let u = seq![p] + t;
    assert(u.len() == t.len() + 1);
    if k < t.len() {
        assert(u[k] == t[k - 1]);
        assert(occurs_at(u, k + 1, marker()) == occurs_at(t, k, marker())) by {
            if k + marker().len() <= t.len() {
                assert(u.subrange(k + 1, k + 1 + marker().len()) =~= t.subrange(
                    k,
                    k + marker().len(),
                ));
            }
        }
        assert(valid_position(u, k + 1) == valid_position(t, k));
        let start = k + marker().len();
        lemma_close_of_shift(p, t, start, start, 1, None, true);
        lemma_close_of_shift(p, t, start, start, 1, None, false);
        lemma_close_of_bounds(t, start, start, 1, None, true);
        lemma_close_of_bounds(t, start, start, 1, None, false);
        assert(closing(u, start + 1) == shifted(closing(t, start)));
        lemma_final_from_shift(p, t, locals, k + 1);
        match closing(t, start) {
            Some(e) => {
                assert(u.subrange(start + 1, e + 1) =~= t.subrange(start, e));
                lemma_final_from_shift(p, t, locals, e + 1);
            },
            None => {},
        }
    }
}

/// The marker is read alike at the start of the text and after a line
/// feed, a space or a colon.
pub proof fn law_final_position(p: char, x: Seq<char>, locals: Map<Seq<char>, Seq<char>>)
    requires
        p == '\n' || p == ' ' || p == ':',
    ensures
        final_answer(seq![p] + marker() + x + seq![')'], locals) == final_answer(
            marker() + x + seq![')'],
            locals,
        ),
{
    reveal_strlit("FINAL(");
    let t = marker() + x + seq![')'];
    let u = seq![p] + t;
    assert(u =~= seq![p] + marker() + x + seq![')']);
    assert(!occurs_at(u, 0, marker())) by {
        if occurs_at(u, 0, marker()) {
            assert(u.subrange(0, 6)[0] == marker()[0]);
        }
    }
    assert(occurs_at(t, 0, marker())) by {
        assert(t.subrange(0, 6) =~= marker());
    }
    assert(occurs_at(u, 1, marker())) by {
        assert(u.subrange(1, 7) =~= marker());
    }
    assert(valid_position(u, 1)) by {
        assert(u[0] == p);
    }
    let start = marker().len() as int;
    lemma_close_of_shift(p, t, start, start, 1, None, true);
    lemma_close_of_shift(p, t, start, start, 1, None, false);
    lemma_close_of_bounds(t, start, start, 1, None, true);
    lemma_close_of_bounds(t, start, start, 1, None, false);
    lemma_final_from_shift(p, t, locals, 1);
    match closing(t, start) {
        Some(e) => {
            assert(u.subrange(start + 1, e + 1) =~= t.subrange(start, e));
            lemma_final_from_shift(p, t, locals, e + 1);
        },
        None => {},
    }
    assert(final_from(u, locals, 0) == final_from(u, locals, 1));
}

/// A marker right after a letter or a digit is passed over: the answer is
/// whatever the text after it gives.
pub proof fn law_final_after_word(p: char, x: Seq<char>, locals: Map<Seq<char>, Seq<char>>)
    requires
        is_ascii_alnum(p),
    ensures
        final_answer(seq![p] + marker() + x + seq![')'], locals) == final_from(
            seq![p] + marker() + x + seq![')'],
            locals,
            2,
        ),
{
    reveal_strlit("FINAL(");
    let u = seq![p] + marker() + x + seq![')'];
    assert(u[0] == p);
    assert(u[1] == 'F');
    assert(!occurs_at(u, 0, marker())) by {
        if occurs_at(u, 0, marker()) {
            assert(u.subrange(0, 6)[1] == marker()[1]);
        }
    }
    assert(!valid_position(u, 1));
    assert(final_from(u, locals, 0) == final_from(u, locals, 1));
}

/// With no quote or parenthesis in `t[i..end]`, the scan reaches `end`
/// unchanged.
proof fn lemma_plain_scan(t: Seq<char>, start: int, i: int, end: int, emo: bool)
    requires
        0 <= start <= i <= end < t.len(),
        forall|j: int|
            i <= j < end ==> t[j] != '(' && t[j] != ')' && t[j] != '"' && t[j] != '\'',
    ensures
        close_of(t, start, i, 1, None, emo) == close_of(t, start, end, 1, None, emo),
    decreases end - i,
{
    if i < end {
        lemma_plain_scan(t, start, i + 1, end, emo);
    }
}

/// Inside a string literal with every quote escaped, the scan reaches
/// `end` unchanged.
proof fn lemma_quoted_scan(t: Seq<char>, start: int, i: int, end: int, emo: bool)
    requires
        0 <= start < i <= end < t.len(),
        forall|j: int| i <= j < end && #[trigger] t[j] == '"' ==> t[j - 1] == '\\',
    ensures
        close_of(t, start, i, 1, Some('"'), emo) == close_of(t, start, end, 1, Some('"'), emo),
    decreases end - i,
{
    if i < end {
        lemma_quoted_scan(t, start, i + 1, end, emo);
    }
}

/// When `t[start..]` is plain text closed by a final `)`, that is the
/// close.
proof fn lemma_plain_closing(t: Seq<char>, start: int)
    requires
        0 <= start < t.len(),
        t.last() == ')',
        forall|j: int|
            start <= j < t.len() - 1 ==> t[j] != '(' && t[j] != ')' && t[j] != '"' && t[j] != '\'',
    ensures
        closing(t, start) == Some(t.len() - 1),
{
    let end = t.len() - 1;
    lemma_plain_scan(t, start, start, end, true);
    lemma_plain_scan(t, start, start, end, false);
    assert(close_of(t, start, end + 1, 1, None, true) is None);
    assert(close_of(t, start, end, 1, None, false) == Some(end));
    assert(close_of(t, start, end, 1, None, true) is None || close_of(t, start, end, 1, None, true)
        == Some(end));
}

/// `marker() + x + ")"` read with the close at its last character.
proof fn lemma_single_marker(x: Seq<char>, locals: Map<Seq<char>, Seq<char>>)
    requires
        closing(marker() + x + seq![')'], marker().len() as int) == Some(
            (marker().len() + x.len()) as int,
        ),
    ensures
        final_answer(marker() + x + seq![')'], locals) == ({
            let c = trimmed(x);
            if looks_like_prose_spec(c) {
                None
            } else if is_identifier_spec(c) && locals.contains_key(c) {
                Some(locals[c])
            } else {
                Some(literal_value(c))
            }
        }),
{
    let t = marker() + x + seq![')'];
    let start = marker().len() as int;
    assert(occurs_at(t, 0, marker())) by {
        assert(t.subrange(0, start) =~= marker());
    }
    assert(t.subrange(start, start + x.len()) =~= x);
    assert(final_from(t, locals, start + x.len() + 1) is None);
}

/// A marker that names a bound string gives that string, unless the name,
/// lowercased, reads as one of the prose phrases.
pub proof fn law_final_resolves_name(id: Seq<char>, locals: Map<Seq<char>, Seq<char>>)
    requires
        is_identifier_spec(id),
        locals.contains_key(id),
        !prose_marked(lower_of(id)),
    ensures
        final_answer(marker() + id + seq![')'], locals) == Some(locals[id]),
{
    reveal_strlit("FINAL(");
    let t = marker() + id + seq![')'];
    assert forall|j: int| 6 <= j < t.len() - 1 implies t[j] != '(' && t[j] != ')' && t[j] != '"'
        && t[j] != '\'' by {
        assert(t[j] == id[j - 6]);
        if j > 6 {
            assert(word_char(id[j - 6]));
        }
    }
    lemma_plain_closing(t, 6);
    assert(lead(id, 0) == 0);
    assert(trail(id, 0, id.len() as int) == id.len()) by {
        if id.len() > 1 {
            assert(word_char(id[id.len() - 1]));
        }
    }
    assert(trimmed(id) =~= id);
    lemma_single_marker(id, locals);
}

/// A quoted literal, whose inner quotes are all escaped, gives its text
/// with `\n` and `\t` turned into a line feed and a tab, unless the literal
/// reads as prose.
pub proof fn law_final_unquotes_literal(s: Seq<char>, locals: Map<Seq<char>, Seq<char>>)
    requires
        forall|j: int| 0 <= j < s.len() && #[trigger] s[j] == '"' ==> j > 0 && s[j - 1] == '\\',
        s.len() > 0 ==> s.last() != '\\',
        !looks_like_prose_spec(seq!['"'] + s + seq!['"']),
    ensures
        final_answer(marker() + seq!['"'] + s + seq!['"', ')'], locals) == Some(unescape(s)),
{
    reveal_strlit("FINAL(");
    let q = seq!['"'] + s + seq!['"'];
    let t = marker() + q + seq![')'];
    assert(t =~= marker() + seq!['"'] + s + seq!['"', ')']);
    let end = 7 + s.len() as int;
    assert(t[6] == '"');
    assert(t[end] == '"');
    assert(t[end + 1] == ')');
    assert forall|j: int| 7 <= j < end && #[trigger] t[j] == '"' implies t[j - 1] == '\\' by {
        assert(t[j] == s[j - 7]);
        assert(t[j - 1] == s[j - 8]);
    }
    lemma_quoted_scan(t, 6, 7, end, true);
    lemma_quoted_scan(t, 6, 7, end, false);
    assert(t[end - 1] != '\\') by {
        if s.len() > 0 {
            assert(t[end - 1] == s.last());
        }
    }
    assert(close_of(t, 6, 6, 1, None, true) == close_of(t, 6, 7, 1, Some('"'), true));
    assert(close_of(t, 6, end, 1, Some('"'), true) == close_of(t, 6, end + 1, 1, None, true));
    assert(close_of(t, 6, end + 1, 1, None, true) == Some(end + 1));
    assert(closing(t, 6) == Some(end + 1));
    assert(lead(q, 0) == 0);
    assert(trail(q, 0, q.len() as int) == q.len());
    assert(trimmed(q) =~= q);
    assert(!is_identifier_spec(q));
    assert(q.subrange(1, q.len() - 1) =~= s);
    lemma_single_marker(q, locals);
}

/// A marker whose content opens with one of the prose phrases, and holds
/// nothing that reads like code, gives no answer.
pub proof fn law_final_rejects_prose(x: Seq<char>, locals: Map<Seq<char>, Seq<char>>)
    requires
        closing(marker() + x + seq![')'], marker().len() as int) == Some(
            (marker().len() + x.len()) as int,
        ),
        !has_code_patterns_spec(trimmed(x)),
        prose_marked(lower_of(trimmed(x))),
    ensures
        final_answer(marker() + x + seq![')'], locals) is None,
{
    lemma_single_marker(x, locals);
}


/// A marker whose content reads like code is never taken for prose: it
/// gives its content as a literal.
pub proof fn law_final_keeps_code(x: Seq<char>)
    requires
        closing(marker() + x + seq![')'], marker().len() as int) == Some(
            (marker().len() + x.len()) as int,
        ),
        has_code_patterns_spec(trimmed(x)),
    ensures
        final_answer(marker() + x + seq![')'], Map::empty()) == Some(literal_value(trimmed(x))),
{
    lemma_single_marker(x, Map::empty());
}

} // verus!
