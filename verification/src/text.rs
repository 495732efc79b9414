//! Character-level helpers: the library models every text as the sequence
//! of its `char`s.
use vstd::prelude::*;

verus! {

/// `String::push` appends one character.
#[verifier::external_body]
pub(crate) fn push_char(s: &mut String, c: char)
    ensures
        final(s)@ == old(s)@.push(c),
{
    s.push(c);
}

/// `str == str` compares the two texts.
#[verifier::external_body]
pub(crate) fn str_eq(a: &str, b: &str) -> (r: bool)
    ensures
        r == (a@ == b@),
{
    a == b
}

/// The characters of a text, in order.
pub fn chars_of(s: &str) -> (v: Vec<char>)
    ensures
        v@ == s@,
{
    let mut v: Vec<char> = Vec::new();
    for c in it: s.chars()
        invariant
            v@ == it.seq().take(it.index() as int),
    {
        v.push(c);
    }
    v
}

} // verus!

verus! {

/// `parts` joined with `sep` between neighbours.
pub open spec fn join(parts: Seq<Seq<char>>, sep: Seq<char>) -> Seq<char>
    decreases parts.len(),
{
    if parts.len() == 0 {
        Seq::empty()
    } else if parts.len() == 1 {
        parts[0]
    } else {
        join(parts.drop_last(), sep) + sep + parts.last()
    }
}

pub proof fn lemma_join_push(parts: Seq<Seq<char>>, sep: Seq<char>, p: Seq<char>)
    ensures
        join(parts.push(p), sep) == if parts.len() == 0 { p } else { join(parts, sep) + sep + p },
{
    assert(parts.push(p).drop_last() == parts);
}

/// Appends `parts` joined by `sep` to `out`.
pub fn append_joined(out: &mut String, parts: &Vec<String>, sep: &str)
    ensures
        final(out)@ == old(out)@ + join(parts@.map_values(|p: String| p@), sep@),
{
    let ghost ps = parts@.map_values(|p: String| p@);
    let ghost start = out@;
    let mut i: usize = 0;
    while i < parts.len()
        invariant
            i <= parts.len(),
            ps == parts@.map_values(|p: String| p@),
            out@ == start + join(ps.subrange(0, i as int), sep@),
        decreases parts.len() - i,
    {
        proof {
            lemma_join_push(ps.subrange(0, i as int), sep@, ps[i as int]);
            assert(ps.subrange(0, i as int).push(ps[i as int]) == ps.subrange(0, i + 1));
        }
        if i > 0 {
            out.append(sep);
        }
        out.append(parts[i].as_str());
        i = i + 1;
    }
    proof { assert(ps.subrange(0, parts.len() as int) == ps); }
}

} // verus!

verus! {

/// `pat` occurs in `t` at index `i`.
pub open spec fn occurs_at(t: Seq<char>, pat: Seq<char>, i: int) -> bool {
    0 <= i && i + pat.len() <= t.len() && t.subrange(i, i + pat.len()) == pat
}

/// The first index at or after `from` where `pat` occurs in `t`, or `-1`.
pub open spec fn find_from(t: Seq<char>, pat: Seq<char>, from: int) -> int
    decreases t.len() - from,
{
    if from < 0 || from + pat.len() > t.len() {
        -1
    } else if pat.len() == 0 || occurs_at(t, pat, from) {
        from
    } else {
        find_from(t, pat, from + 1)
    }
}

pub proof fn lemma_find_from_bounds(t: Seq<char>, pat: Seq<char>, from: int)
    ensures
        find_from(t, pat, from) == -1 || (from <= find_from(t, pat, from) && occurs_at(t, pat, find_from(t, pat, from))),
    decreases t.len() - from,
{
    if from < 0 || from + pat.len() > t.len() {
    } else if pat.len() == 0 || occurs_at(t, pat, from) {
        assert(t.subrange(from, from + pat.len()) =~= pat);
    } else {
        lemma_find_from_bounds(t, pat, from + 1);
    }
}

/// Whether `pat` occurs in `t` at `i`.
pub fn matches_at(t: &Vec<char>, pat: &Vec<char>, i: usize) -> (r: bool)
    ensures
        r == occurs_at(t@, pat@, i as int),
{
    if i > t.len() || pat.len() > t.len() - i {
        return false;
    }
    let mut k: usize = 0;
    while k < pat.len()
        invariant
            k <= pat.len(),
            i + pat.len() <= t.len(),
            forall|j: int| 0 <= j < k ==> t@[i + j] == pat@[j],
        decreases pat.len() - k,
    {
        if t[i + k] != pat[k] {
            assert(t@.subrange(i as int, i + pat.len())[k as int] != pat@[k as int]);
            return false;
        }
        k = k + 1;
    }
    assert(t@.subrange(i as int, i + pat.len()) =~= pat@);
    true
}

/// The first index at or after `from` where `pat` occurs in `t`.
pub fn find_chars(t: &Vec<char>, pat: &Vec<char>, from: usize) -> (r: Option<usize>)
    ensures
        match r {
            Some(k) => find_from(t@, pat@, from as int) == k,
            None => find_from(t@, pat@, from as int) == -1,
        },
{
    if pat.len() > t.len() {
        return None;
    }
    let mut i = from;
    while i <= t.len() - pat.len()
        invariant
            from <= i,
            pat.len() <= t.len(),
            find_from(t@, pat@, from as int) == find_from(t@, pat@, i as int),
        decreases t.len() + 1 - i,
    {
        if pat.len() == 0 || matches_at(t, pat, i) {
            return Some(i);
        }
        i = i + 1;
    }
    None
}

/// Appends `t[from..to]`.
pub fn push_range(out: &mut String, t: &Vec<char>, from: usize, to: usize)
    requires
        from <= to <= t@.len(),
    ensures
        final(out)@ == old(out)@ + t@.subrange(from as int, to as int),
{
    let mut i = from;
    while i < to
        invariant
            from <= i <= to <= t@.len(),
            out@ == old(out)@ + t@.subrange(from as int, i as int),
        decreases to - i,
    {
        push_char(out, t[i]);
        assert(t@.subrange(from as int, i + 1) == t@.subrange(from as int, i as int).push(t@[i as int]));
        i = i + 1;
    }
}

/// The decimal digit character for `d < 10`.
pub open spec fn digit(d: nat) -> char {
    if d == 0 { '0' } else if d == 1 { '1' } else if d == 2 { '2' } else if d == 3 { '3' } else if d == 4 { '4' }
    else if d == 5 { '5' } else if d == 6 { '6' } else if d == 7 { '7' } else if d == 8 { '8' } else { '9' }
}

/// The decimal numeral of `n`, without leading zeros.
pub open spec fn decimal(n: nat) -> Seq<char>
    decreases n,
{
    if n < 10 {
        seq![digit(n)]
    } else {
        decimal(n / 10).push(digit(n % 10))
    }
}

fn digit_char(d: u64) -> (c: char)
    requires
        d < 10,
    ensures
        c == digit(d as nat),
{
    match d {
        0 => '0',
        1 => '1',
        2 => '2',
        3 => '3',
        4 => '4',
        5 => '5',
        6 => '6',
        7 => '7',
        8 => '8',
        _ => '9',
    }
}

/// Appends the decimal numeral of `n`.
pub fn push_decimal(out: &mut String, n: u64)
    ensures
        final(out)@ == old(out)@ + decimal(n as nat),
    decreases n,
{
    if n >= 10 {
        push_decimal(out, n / 10);
    }
    push_char(out, digit_char(n % 10));
    assert(decimal(n as nat) == if n < 10 { seq![digit(n as nat)] } else { decimal((n / 10) as nat).push(digit((n % 10) as nat)) });
}

} // verus!

verus! {

/// `t` with its reasoning blocks removed. A block starts at the first
/// occurrence of `open`; it ends after the first `close` found `skip` or more
/// characters past the block's start. An unclosed block drops the rest.
pub open spec fn strip_blocks(t: Seq<char>, open: Seq<char>, close: Seq<char>, skip: int) -> Seq<char>
    decreases t.len(),
    when close.len() > 0 && skip >= 0
{
    let s = find_from(t, open, 0);
    if s < 0 {
        t
    } else {
        let e = find_from(t, close, s + skip);
        if e < 0 {
            t.subrange(0, s)
        } else {
            proof { lemma_find_from_bounds(t, open, 0); lemma_find_from_bounds(t, close, s + skip); }
            t.subrange(0, s) + strip_blocks(t.subrange(e + close.len(), t.len() as int), open, close, skip)
        }
    }
}

/// Searching a suffix is searching the whole text from the suffix's start.
pub proof fn lemma_find_shift(t: Seq<char>, pat: Seq<char>, pos: int, i: int)
    requires
        0 <= pos <= t.len(),
        0 <= i,
    ensures
        find_from(t.subrange(pos, t.len() as int), pat, i) == (if find_from(t, pat, pos + i) < 0 { -1 } else { find_from(t, pat, pos + i) - pos }),
    decreases t.len() - pos - i,
{
    let sub = t.subrange(pos, t.len() as int);
    if i + pat.len() > sub.len() {
    } else {
        assert(sub.subrange(i, i + pat.len()) =~= t.subrange(pos + i, pos + i + pat.len()));
        if pat.len() == 0 || occurs_at(sub, pat, i) {
        } else {
            lemma_find_shift(t, pat, pos, i + 1);
        }
    }
}

/// Removes reasoning blocks as [`strip_blocks`] describes.
pub fn strip_blocks_exec(text: &str, open: &str, close: &str, skip: usize) -> (r: String)
    requires
        close@.len() > 0,
    ensures
        r@ == strip_blocks(text@, open@, close@, skip as int),
{
    let t = chars_of(text);
    let o = chars_of(open);
    let c = chars_of(close);
    let mut result = String::new();
    let mut pos: usize = 0;
    assert(t@.subrange(0, t@.len() as int) == t@);
    assert(result@ + t@ == t@);
    loop
        invariant
            pos <= t@.len(),
            t@ == text@,
            o@ == open@,
            c@ == close@,
            c@.len() > 0,
            result@ + strip_blocks(t@.subrange(pos as int, t@.len() as int), o@, c@, skip as int)
                == strip_blocks(t@, o@, c@, skip as int),
        decreases t@.len() - pos,
    {
        let ghost rest = t@.subrange(pos as int, t@.len() as int);
        proof { lemma_find_shift(t@, o@, pos as int, 0); }
        match find_chars(&t, &o, pos) {
            None => {
                push_range(&mut result, &t, pos, t.len());
                return result;
            },
            Some(start) => {
                proof {
                    lemma_find_from_bounds(t@, o@, pos as int);
                    assert(rest.subrange(0, start - pos) == t@.subrange(pos as int, start as int));
                }
                push_range(&mut result, &t, pos, start);
                if start > t.len() - o.len() || skip > t.len() - start {
                    proof {
                        lemma_find_shift(t@, c@, pos as int, start - pos + skip);
                        assert(find_from(rest, c@, start - pos + skip) == -1);
                    }
                    return result;
                }
                let from = start + skip;
                proof { lemma_find_shift(t@, c@, pos as int, start - pos + skip); }
                match find_chars(&t, &c, from) {
                    None => {
                        return result;
                    },
                    Some(end) => {
                        proof {
                            lemma_find_from_bounds(t@, c@, from as int);
                            assert(rest.subrange(end - pos + c@.len(), rest.len() as int)
                                == t@.subrange(end + c@.len(), t@.len() as int));
                        }
                        pos = end + c.len();
                    },
                }
            },
        }
    }
}

} // verus!

verus! {

/// Name for what `char::is_whitespace` answers: the Unicode `White_Space` property.
pub uninterp spec fn white_space(c: char) -> bool;

/// `char::is_whitespace`: whether `c` has the Unicode `White_Space`
/// property. Its answer is named `white_space`; beside that, the ASCII
/// whitespace characters have it and ASCII letters and digits do not.
#[verifier::external_body]
pub(crate) fn is_whitespace(c: char) -> (r: bool)
    ensures
        r == white_space(c),
        c == ' ' || c == '\t' || c == '\n' || c == '\r' || c == '\x0B' || c == '\x0C' ==> r,
        ('a' <= c <= 'z') || ('A' <= c <= 'Z') || ('0' <= c <= '9') ==> !r,
{
    c.is_whitespace()
}

/// The words of a text (maximal runs of characters without white space),
/// with whether its last character belongs to the last word.
pub open spec fn words_state(t: Seq<char>) -> (Seq<Seq<char>>, bool)
    decreases t.len(),
{
    if t.len() == 0 {
        (Seq::empty(), false)
    } else {
        let (ws, in_word) = words_state(t.drop_last());
        let c = t.last();
        if white_space(c) {
            (ws, false)
        } else if in_word {
            (ws.update(ws.len() - 1, ws.last().push(c)), true)
        } else {
            (ws.push(seq![c]), true)
        }
    }
}

/// The words of a text, as `str::split_whitespace` yields them.
pub open spec fn words(t: Seq<char>) -> Seq<Seq<char>> {
    words_state(t).0
}

pub proof fn lemma_words_state(t: Seq<char>)
    ensures
        words_state(t).1 ==> words_state(t).0.len() > 0,
    decreases t.len(),
{
    if t.len() > 0 {
        lemma_words_state(t.drop_last());
    }
}

/// The words of `s`, split at white space.
pub fn split_words(s: &str) -> (r: Vec<String>)
    ensures
        r@.map_values(|w: String| w@) == words(s@),
{
    let t = chars_of(s);
    let mut out: Vec<String> = Vec::new();
    let mut in_word = false;
    let mut i: usize = 0;
    while i < t.len()
        invariant
            i <= t@.len(),
            t@ == s@,
            (out@.map_values(|w: String| w@), in_word) == words_state(t@.subrange(0, i as int)),
        decreases t.len() - i,
    {
        let c = t[i];
        proof {
            let sub = t@.subrange(0, i + 1);
            assert(sub.drop_last() == t@.subrange(0, i as int));
            lemma_words_state(t@.subrange(0, i as int));
        }
        let ghost before = out@.map_values(|w: String| w@);
        if is_whitespace(c) {
            in_word = false;
        } else if in_word {
            let k = out.len() - 1;
            let mut w = out[k].clone();
            push_char(&mut w, c);
            out.set(k, w);
            assert(out@.map_values(|w: String| w@) =~= before.update(before.len() - 1, before.last().push(c)));
        } else {
            let mut w = String::new();
            push_char(&mut w, c);
            out.push(w);
            assert(w@ =~= seq![c]);
            assert(out@.map_values(|w: String| w@) =~= before.push(seq![c]));
            in_word = true;
        }
        i = i + 1;
    }
    proof { assert(t@.subrange(0, t@.len() as int) == t@); }
    out
}

} // verus!
