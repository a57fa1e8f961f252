//! Character-level string vocabulary shared by the whole engine.
//!
//! Specs speak about `Seq<char>` views; the executable helpers walk
//! strings one character at a time through the vstd string interface.

use vstd::prelude::*;
use vstd::string::StrSliceExecFns;
use vstd::string::StringExecFns;

verus! {

/// The whitespace characters the engine's tokenizer recognises: the ASCII
/// white space set, which is all the external tool ever emits between fields.
pub open spec fn is_space_char(c: char) -> bool {
    c == ' ' || c == '\t' || c == '\n' || c == '\r' || c == '\u{b}' || c == '\u{c}'
}

/// Decimal digit test.
pub open spec fn is_digit_char(c: char) -> bool {
    '0' <= c && c <= '9'
}

/// Numeric value of a decimal digit character.
pub open spec fn digit_val(c: char) -> int {
    c as int - '0' as int
}

/// Value of a string of decimal digits, most significant first.
pub open spec fn dec_val(s: Seq<char>) -> int
    decreases s.len(),
{
    if s.len() == 0 {
        0
    } else {
        dec_val(s.drop_last()) * 10 + digit_val(s.last())
    }
}

/// Whether every character of `s` is a decimal digit.
pub open spec fn all_digits(s: Seq<char>) -> bool {
    forall|i: int| 0 <= i < s.len() ==> is_digit_char(#[trigger] s[i])
}

/// The pattern `p` occurs in `s` starting at index `i`.
pub open spec fn has_sub_at(s: Seq<char>, p: Seq<char>, i: int) -> bool {
    0 <= i && i + p.len() <= s.len() && s.subrange(i, i + p.len() as int) == p
}

/// The pattern `p` occurs somewhere in `s`.
pub open spec fn contains_sub(s: Seq<char>, p: Seq<char>) -> bool {
    exists|i: int| has_sub_at(s, p, i)
}

/// Index of the first occurrence of `p` in `s` at or after `i`, if any.
pub open spec fn find_sub_from(s: Seq<char>, p: Seq<char>, i: int) -> Option<int>
    decreases s.len() - i + 1,
{
    if i < 0 || i + p.len() > s.len() {
        None
    } else if s.subrange(i, i + p.len() as int) == p {
        Some(i)
    } else {
        find_sub_from(s, p, i + 1)
    }
}

/// Index of the first occurrence of `p` in `s`, if any.
pub open spec fn find_sub(s: Seq<char>, p: Seq<char>) -> Option<int> {
    find_sub_from(s, p, 0)
}

/// Some character of `s` equals `c`.
pub open spec fn contains_char(s: Seq<char>, c: char) -> bool {
    exists|i: int| 0 <= i < s.len() && s[i] == c
}

/// End of the whitespace-free run that starts at `i`: the first index at
/// or after `i` that is past the end or holds a space.
pub open spec fn token_end(s: Seq<char>, i: int) -> int
    decreases s.len() - i,
{
    if i < 0 || i >= s.len() || is_space_char(s[i]) {
        i
    } else {
        token_end(s, i + 1)
    }
}

/// `token_end` never moves backwards and stays inside the string; at a
/// non-space character it moves strictly forward.
pub proof fn lemma_token_end_bounds(s: Seq<char>, i: int)
    requires
        0 <= i <= s.len(),
    ensures
        i <= token_end(s, i) <= s.len(),
        i < s.len() && !is_space_char(s[i]) ==> i < token_end(s, i),
    decreases s.len() - i,
{
    if i < s.len() && !is_space_char(s[i]) {
        lemma_token_end_bounds(s, i + 1);
    }
}

/// The whitespace-delimited tokens of `s` from index `i` on, in order.
pub open spec fn tokens_from(s: Seq<char>, i: int) -> Seq<Seq<char>>
    decreases s.len() - i,
    via tokens_from_decreases
{
    if i < 0 || i >= s.len() {
        Seq::empty()
    } else if is_space_char(s[i]) {
        tokens_from(s, i + 1)
    } else {
        seq![s.subrange(i, token_end(s, i))] + tokens_from(s, token_end(s, i))
    }
}

#[via_fn]
proof fn tokens_from_decreases(s: Seq<char>, i: int) {
    if 0 <= i <= s.len() {
        lemma_token_end_bounds(s, i);
    }
}

/// The whitespace-delimited tokens of `s`, in order.
pub open spec fn tokens(s: Seq<char>) -> Seq<Seq<char>> {
    tokens_from(s, 0)
}

/// The first entry of `ts` at or after position `k` satisfying `p`, if any.
pub open spec fn first_where_from(
    ts: Seq<Seq<char>>,
    p: spec_fn(Seq<char>) -> bool,
    k: int,
) -> Option<Seq<char>>
    decreases ts.len() - k,
{
    if k < 0 || k >= ts.len() {
        None
    } else if p(ts[k]) {
        Some(ts[k])
    } else {
        first_where_from(ts, p, k + 1)
    }
}

/// The first entry of `ts` satisfying `p`, if any.
pub open spec fn first_where(ts: Seq<Seq<char>>, p: spec_fn(Seq<char>) -> bool) -> Option<
    Seq<char>,
> {
    first_where_from(ts, p, 0)
}

/// Index of the first character equal to `c` at or after `i`, if any.
pub open spec fn find_char_from(s: Seq<char>, c: char, i: int) -> Option<int>
    decreases s.len() - i,
{
    if i < 0 || i >= s.len() {
        None
    } else if s[i] == c {
        Some(i)
    } else {
        find_char_from(s, c, i + 1)
    }
}

/// Index of the first character equal to `c`, if any.
pub open spec fn find_char(s: Seq<char>, c: char) -> Option<int> {
    find_char_from(s, c, 0)
}

/// First index at or after `i` holding a non-space character, or the length.
pub open spec fn start_trim(s: Seq<char>, i: int) -> int
    decreases s.len() - i,
{
    if i < 0 || i >= s.len() || !is_space_char(s[i]) {
        i
    } else {
        start_trim(s, i + 1)
    }
}

/// Index just past the last non-space character strictly before `j`, or 0.
pub open spec fn end_trim(s: Seq<char>, j: int) -> int
    decreases j,
{
    if j <= 0 || j > s.len() || !is_space_char(s[j - 1]) {
        j
    } else {
        end_trim(s, j - 1)
    }
}

/// `s` without leading and trailing whitespace.
pub open spec fn trimmed(s: Seq<char>) -> Seq<char> {
    let a = start_trim(s, 0);
    let b = end_trim(s, s.len() as int);
    if a <= b {
        s.subrange(a, b)
    } else {
        Seq::empty()
    }
}

/// The digits of `n` in decimal, most significant first.
pub open spec fn dec_str(n: nat) -> Seq<char>
    decreases n,
{
    if n < 10 {
        seq![char_of_digit(n as int)]
    } else {
        dec_str(n / 10).push(char_of_digit((n % 10) as int))
    }
}

/// The character for a single decimal digit.
pub open spec fn char_of_digit(d: int) -> char {
    if d == 0 {
        '0'
    } else if d == 1 {
        '1'
    } else if d == 2 {
        '2'
    } else if d == 3 {
        '3'
    } else if d == 4 {
        '4'
    } else if d == 5 {
        '5'
    } else if d == 6 {
        '6'
    } else if d == 7 {
        '7'
    } else if d == 8 {
        '8'
    } else {
        '9'
    }
}

/// A digit string's value is never negative.
pub proof fn lemma_dec_val_nonneg(s: Seq<char>)
    requires
        all_digits(s),
    ensures
        dec_val(s) >= 0,
    decreases s.len(),
{
    if s.len() > 0 {
        assert(all_digits(s.drop_last())) by {
            assert(forall|i: int|
                0 <= i < s.len() - 1 ==> is_digit_char(#[trigger] s.drop_last()[i]));
        }
        lemma_dec_val_nonneg(s.drop_last());
    }
}

/// Extending a digit prefix by one digit multiplies its value by ten and
/// adds the digit.
pub proof fn lemma_dec_val_take_step(s: Seq<char>, i: int)
    requires
        0 <= i < s.len(),
    ensures
        dec_val(s.take(i + 1)) == dec_val(s.take(i)) * 10 + digit_val(s[i]),
{
    assert(s.take(i + 1).drop_last() =~= s.take(i));
    assert(s.take(i + 1).last() == s[i]);
}

/// A digit string is worth at least any of its prefixes.
pub proof fn lemma_dec_val_prefix_le(s: Seq<char>, i: int)
    requires
        all_digits(s),
        0 <= i <= s.len(),
    ensures
        dec_val(s.take(i)) <= dec_val(s),
    decreases s.len() - i,
{
    if i < s.len() {
        lemma_dec_val_take_step(s, i);
        assert(all_digits(s.take(i))) by {
            assert(forall|k: int| 0 <= k < i ==> is_digit_char(#[trigger] s.take(i)[k]));
        }
        lemma_dec_val_nonneg(s.take(i));
        lemma_dec_val_prefix_le(s, i + 1);
    } else {
        assert(s.take(i) =~= s);
    }
}

/// Greedy word wrap over the words `ws` from position `i`, with `current`
/// the line under construction: a word joins the line when the line, one
/// space and the word fit in `width` characters; otherwise the line is
/// emitted and the word opens the next one.
pub open spec fn greedy_from(
    ws: Seq<Seq<char>>,
    width: int,
    i: int,
    current: Seq<char>,
) -> Seq<Seq<char>>
    decreases ws.len() - i,
{
    if i < 0 || i >= ws.len() {
        if current.len() == 0 {
            Seq::empty()
        } else {
            seq![current]
        }
    } else {
        let w = ws[i];
        if current.len() == 0 {
            greedy_from(ws, width, i + 1, w)
        } else if current.len() + 1 + w.len() <= width {
            greedy_from(ws, width, i + 1, current + seq![' '] + w)
        } else {
            seq![current] + greedy_from(ws, width, i + 1, w)
        }
    }
}

/// The wrapped lines of `s`: its whitespace-delimited words, wrapped
/// greedily to `width` characters; a single line that is empty when `s`
/// has no words. A word longer than `width` stands on a line of its own.
pub open spec fn spec_textwrap(s: Seq<char>, width: int) -> Seq<Seq<char>> {
    let ls = greedy_from(tokens(s), width, 0, Seq::empty());
    if ls.len() == 0 {
        seq![Seq::empty()]
    } else {
        ls
    }
}

/// Wraps `text` to lines of at most `width` characters, breaking at
/// whitespace.
pub fn textwrap_simple(text: &str, width: usize) -> (r: Vec<String>)
    ensures
        r@.map_values(|l: String| l@) == spec_textwrap(text@, width as int),
{
    let ghost toks = tokens(text@);
    let ranges = tokenize(text);
    let mut out: Vec<String> = Vec::new();
    let mut current = String::new();
    let mut i: usize = 0;
    while i < ranges.len()
        invariant
            ranges@.map_values(|t: (usize, usize)| text@.subrange(t.0 as int, t.1 as int))
                == toks,
            forall|q: int|
                0 <= q < ranges@.len() ==> (#[trigger] ranges@[q]).0 < ranges@[q].1
                    <= text@.len(),
            0 <= i <= ranges@.len(),
            greedy_from(toks, width as int, 0, Seq::empty()) == out@.map_values(
                |l: String| l@,
            ) + greedy_from(toks, width as int, i as int, current@),
        decreases ranges@.len() - i,
    {
        let (a, b) = ranges[i];
        proof {
            assert(toks[i as int] == text@.subrange(a as int, b as int));
        }
        let word = text.substring_char(a, b);
        let wlen = b - a;
        proof {
            assert(wlen == toks[i as int].len());
        }
        let clen = current.as_str().unicode_len();
        if clen == 0 {
            current = String::from_str(word);
        } else if width > wlen && clen <= width - wlen - 1 {
            let ghost cur0 = current@;
            current.append(" ");
            current.append(word);
            proof {
                reveal_strlit(" ");
                assert(current@ =~= cur0 + seq![' '] + toks[i as int]);
            }
        } else {
            let ghost prev = out@;
            out.push(current);
            proof {
                assert(out@.map_values(|l: String| l@) =~= prev.map_values(|l: String| l@)
                    + seq![out@.last()@]);
            }
            current = String::from_str(word);
        }
        i += 1;
    }
    if current.as_str().unicode_len() > 0 {
        let ghost prev = out@;
        out.push(current);
        proof {
            assert(out@.map_values(|l: String| l@) =~= prev.map_values(|l: String| l@)
                + seq![out@.last()@]);
        }
    }
    if out.len() == 0 {
        out.push(String::new());
        proof {
            assert(out@.map_values(|l: String| l@) =~= seq![Seq::<char>::empty()]);
        }
    } else {
        proof {
            assert(out@.map_values(|l: String| l@) =~= out@.map_values(|l: String| l@)
                + Seq::<Seq<char>>::empty());
        }
    }
    out
}

/// Character-for-character equality of two string slices.
pub fn str_eq(a: &str, b: &str) -> (r: bool)
    ensures
        r == (a@ == b@),
{
    let alen = a.unicode_len();
    let blen = b.unicode_len();
    if alen != blen {
        assert(a@ != b@) by {
            assert(a@.len() != b@.len());
        }
        return false;
    }
    let mut i: usize = 0;
    while i < alen
        invariant
            alen == a@.len(),
            alen == b@.len(),
            0 <= i <= alen,
            forall|k: int| 0 <= k < i ==> a@[k] == b@[k],
        decreases alen - i,
    {
        if a.get_char(i) != b.get_char(i) {
            return false;
        }
        i += 1;
    }
    proof {
        assert(a@ =~= b@);
    }
    true
}

/// Equality of an optional string against a slice, used by predicates that
/// compare a codec tag with a sentinel.
pub fn opt_str_eq(a: &Option<String>, b: &str) -> (r: bool)
    ensures
        r == (a is Some && a->0@ == b@),
{
    match a {
        Some(s) => str_eq(s.as_str(), b),
        None => false,
    }
}

/// Whether `c` is in the tokenizer's whitespace set.
pub fn is_space(c: char) -> (r: bool)
    ensures
        r == is_space_char(c),
{
    c == ' ' || c == '\t' || c == '\n' || c == '\r' || c == '\u{b}' || c == '\u{c}'
}

/// Finds the first occurrence of `c` in `s` at or after `from`.
pub fn find_char_exec(s: &str, c: char, from: usize) -> (r: Option<usize>)
    ensures
        match r {
            Some(j) => find_char_from(s@, c, from as int) == Some(j as int) && from <= j
                < s@.len(),
            None => find_char_from(s@, c, from as int) is None,
        },
{
    let n = s.unicode_len();
    let mut i: usize = from;
    while i < n
        invariant
            n == s@.len(),
            from <= i,
            find_char_from(s@, c, from as int) == find_char_from(s@, c, i as int),
        decreases n - i,
    {
        if s.get_char(i) == c {
            return Some(i);
        }
        i += 1;
    }
    None
}

/// Finds the first occurrence of the pattern `p` in `s` at or after `from`.
pub fn find_sub_exec(s: &str, p: &str, from: usize) -> (r: Option<usize>)
    ensures
        match r {
            Some(j) => find_sub_from(s@, p@, from as int) == Some(j as int) && from <= j
                && j + p@.len() <= s@.len(),
            None => find_sub_from(s@, p@, from as int) is None,
        },
{
    let n = s.unicode_len();
    let m = p.unicode_len();
    if m > n || from > n - m {
        return None;
    }
    if m == 0 {
        proof {
            assert(s@.subrange(from as int, from as int) =~= p@);
        }
        return Some(from);
    }
    let mut i: usize = from;
    while i <= n - m
        invariant
            n == s@.len(),
            m == p@.len(),
            1 <= m <= n,
            from <= i <= n - m + 1,
            find_sub_from(s@, p@, from as int) == find_sub_from(s@, p@, i as int),
        decreases n - i,
    {
        let mut k: usize = 0;
        let mut all: bool = true;
        while k < m
            invariant
                n == s@.len(),
                m == p@.len(),
                i + m <= n,
                0 <= k <= m,
                all ==> forall|q: int| 0 <= q < k ==> s@[i + q] == p@[q],
                !all ==> s@.subrange(i as int, i + m) != p@,
            decreases m - k,
        {
            if s.get_char(i + k) != p.get_char(k) {
                proof {
                    assert(s@.subrange(i as int, i + m as int)[k as int] != p@[k as int]);
                }
                all = false;
                k = m;
            } else {
                k += 1;
            }
        }
        if all {
            proof {
                assert(s@.subrange(i as int, i + m as int) =~= p@);
            }
            return Some(i);
        }
        i += 1;
    }
    proof {
        assert(find_sub_from(s@, p@, i as int) is None);
    }
    None
}

/// Whether the pattern `p` occurs anywhere in `s`.
pub fn contains_sub_exec(s: &str, p: &str) -> (r: bool)
    ensures
        r == contains_sub(s@, p@),
{
    let r = find_sub_exec(s, p, 0);
    proof {
        lemma_find_sub_contains(s@, p@);
    }
    r.is_some()
}

/// `find_sub` succeeds exactly on the strings that contain the pattern.
pub proof fn lemma_find_sub_contains(s: Seq<char>, p: Seq<char>)
    ensures
        find_sub(s, p) is Some <==> contains_sub(s, p),
        find_sub(s, p) matches Some(j) ==> has_sub_at(s, p, j),
{
    lemma_find_sub_from_contains(s, p, 0);
}

proof fn lemma_find_sub_from_contains(s: Seq<char>, p: Seq<char>, i: int)
    requires
        0 <= i,
    ensures
        find_sub_from(s, p, i) matches Some(j) ==> has_sub_at(s, p, j) && i <= j,
        find_sub_from(s, p, i) is None ==> forall|j: int| i <= j ==> !has_sub_at(s, p, j),
    decreases s.len() - i + 1,
{
    if i + p.len() > s.len() {
        assert forall|j: int| i <= j implies !has_sub_at(s, p, j) by {}
    } else if s.subrange(i, i + p.len() as int) == p {
    } else {
        lemma_find_sub_from_contains(s, p, i + 1);
        if find_sub_from(s, p, i) is None {
            assert forall|j: int| i <= j implies !has_sub_at(s, p, j) by {
                if j == i {
                    assert(s.subrange(i, i + p.len() as int) != p);
                }
            }
        }
    }
}

/// Splits `s` into its whitespace-delimited tokens from index `from` on,
/// returned as index ranges into `s`.
pub fn tokenize_from(s: &str, from: usize) -> (r: Vec<(usize, usize)>)
    ensures
        r@.map_values(|t: (usize, usize)| s@.subrange(t.0 as int, t.1 as int)) == tokens_from(
            s@,
            from as int,
        ),
        forall|q: int|
            0 <= q < r@.len() ==> from <= (#[trigger] r@[q]).0 < r@[q].1 <= s@.len(),
{
    let n = s.unicode_len();
    let mut r: Vec<(usize, usize)> = Vec::new();
    let mut i: usize = from;
    while i < n
        invariant
            n == s@.len(),
            from <= i,
            tokens_from(s@, from as int) == r@.map_values(
                |t: (usize, usize)| s@.subrange(t.0 as int, t.1 as int),
            ) + tokens_from(s@, i as int),
            forall|q: int|
                0 <= q < r@.len() ==> from <= (#[trigger] r@[q]).0 < r@[q].1 <= s@.len(),
        decreases n - i,
    {
        if is_space(s.get_char(i)) {
            i += 1;
        } else {
            let start: usize = i;
            let mut j: usize = i;
            while j < n && !is_space(s.get_char(j))
                invariant
                    n == s@.len(),
                    start <= j <= n,
                    start < j || (j == start && j < n && !is_space_char(s@[j as int])),
                    token_end(s@, start as int) == token_end(s@, j as int),
                decreases n - j,
            {
                j += 1;
            }
            proof {
                assert(token_end(s@, j as int) == j);
                assert(tokens_from(s@, start as int) == seq![
                    s@.subrange(start as int, j as int),
                ] + tokens_from(s@, j as int));
            }
            let ghost prev = r@;
            r.push((start, j));
            proof {
                assert(r@.map_values(|t: (usize, usize)| s@.subrange(t.0 as int, t.1 as int))
                    =~= prev.map_values(|t: (usize, usize)| s@.subrange(t.0 as int, t.1 as int))
                    + seq![s@.subrange(start as int, j as int)]);
            }
            i = j;
        }
    }
    proof {
        assert(r@.map_values(|t: (usize, usize)| s@.subrange(t.0 as int, t.1 as int))
            =~= r@.map_values(|t: (usize, usize)| s@.subrange(t.0 as int, t.1 as int))
            + tokens_from(s@, i as int));
    }
    r
}

/// Splits `s` into its whitespace-delimited tokens, as index ranges.
pub fn tokenize(s: &str) -> (r: Vec<(usize, usize)>)
    ensures
        r@.map_values(|t: (usize, usize)| s@.subrange(t.0 as int, t.1 as int)) == tokens(s@),
        forall|q: int| 0 <= q < r@.len() ==> (#[trigger] r@[q]).0 < r@[q].1 <= s@.len(),
{
    tokenize_from(s, 0)
}

/// Whether some character of `s` equals `c`.
pub fn contains_char_exec(s: &str, c: char) -> (r: bool)
    ensures
        r == contains_char(s@, c),
{
    let n = s.unicode_len();
    let mut i: usize = 0;
    while i < n
        invariant
            n == s@.len(),
            0 <= i <= n,
            forall|k: int| 0 <= k < i ==> s@[k] != c,
        decreases n - i,
    {
        if s.get_char(i) == c {
            return true;
        }
        i += 1;
    }
    false
}

/// Whether every character of `s` in `[a, b)` is a decimal digit.
pub fn all_digits_range(s: &str, a: usize, b: usize) -> (r: bool)
    requires
        a <= b <= s@.len(),
    ensures
        r == all_digits(s@.subrange(a as int, b as int)),
{
    let ghost d = s@.subrange(a as int, b as int);
    let mut i: usize = a;
    while i < b
        invariant
            a <= i <= b <= s@.len(),
            d == s@.subrange(a as int, b as int),
            forall|k: int| 0 <= k < i - a ==> is_digit_char(#[trigger] d[k]),
        decreases b - i,
    {
        let c = s.get_char(i);
        if !('0' <= c && c <= '9') {
            proof {
                assert(d[i - a] == c);
            }
            return false;
        }
        i += 1;
    }
    true
}

/// Value of the decimal digit string `s[a..b)`, or `None` where that value
/// does not fit in a `u64`.
pub fn parse_digits_u64(s: &str, a: usize, b: usize) -> (r: Option<u64>)
    requires
        a <= b <= s@.len(),
        all_digits(s@.subrange(a as int, b as int)),
    ensures
        match r {
            Some(v) => v == dec_val(s@.subrange(a as int, b as int)),
            None => dec_val(s@.subrange(a as int, b as int)) > u64::MAX,
        },
{
    let ghost d = s@.subrange(a as int, b as int);
    let mut acc: u64 = 0;
    let mut i: usize = a;
    while i < b
        invariant
            a <= i <= b <= s@.len(),
            d == s@.subrange(a as int, b as int),
            all_digits(d),
            acc == dec_val(d.take(i - a)),
        decreases b - i,
    {
        let c = s.get_char(i);
        proof {
            assert(d[i - a] == c);
            assert(is_digit_char(c));
        }
        let dv: u64 = (c as u32 as u64) - 48;
        proof {
            assert(dv == digit_val(c));
        }
        if acc > (u64::MAX - dv) / 10 {
            proof {
                lemma_dec_val_take_step(d, i - a);
                assert(dec_val(d.take(i - a + 1)) > u64::MAX);
                lemma_dec_val_prefix_le(d, i - a + 1);
                assert(d.take(d.len() as int) =~= d);
            }
            return None;
        }
        proof {
            lemma_dec_val_take_step(d, i - a);
        }
        acc = acc * 10 + dv;
        i += 1;
    }
    proof {
        assert(d.take(b - a) =~= d);
    }
    Some(acc)
}

/// Copies the characters of `s` in `[a, b)` into an owned string.
pub fn extract_string(s: &str, a: usize, b: usize) -> (r: String)
    requires
        a <= b <= s@.len(),
    ensures
        r@ == s@.subrange(a as int, b as int),
{
    String::from_str(s.substring_char(a, b))
}

/// `s` without leading and trailing whitespace, as an owned string.
pub fn trim_str(s: &str) -> (r: String)
    ensures
        r@ == trimmed(s@),
{
    let n = s.unicode_len();
    let mut a: usize = 0;
    while a < n && is_space(s.get_char(a))
        invariant
            n == s@.len(),
            0 <= a <= n,
            start_trim(s@, 0) == start_trim(s@, a as int),
        decreases n - a,
    {
        a += 1;
    }
    let mut b: usize = n;
    while b > 0 && is_space(s.get_char(b - 1))
        invariant
            n == s@.len(),
            0 <= b <= n,
            end_trim(s@, n as int) == end_trim(s@, b as int),
        decreases b,
    {
        b -= 1;
    }
    proof {
        assert(start_trim(s@, a as int) == a);
        assert(end_trim(s@, b as int) == b);
    }
    if a <= b {
        extract_string(s, a, b)
    } else {
        String::new()
    }
}

/// Relies on `String::push`: appends one character at the end.
#[verifier::external_body]
pub fn push_char(s: &mut String, c: char)
    ensures
        final(s)@ == old(s)@.push(c),
{
    s.push(c)
}

/// Relies on `String::pop`: removes and returns the last character, or
/// returns `None` on an empty string.
#[verifier::external_body]
pub fn pop_char(s: &mut String) -> (r: Option<char>)
    ensures
        old(s)@.len() == 0 ==> final(s)@ == old(s)@ && r is None,
        old(s)@.len() > 0 ==> final(s)@ == old(s)@.drop_last() && r == Some(
            old(s)@.last(),
        ),
{
    s.pop()
}

/// The character for one decimal digit.
pub fn digit_char(d: u64) -> (c: char)
    requires
        d <= 9,
    ensures
        c == char_of_digit(d as int),
{
    match d {
        0 => '0',
        1 => '1',
        2 => '2',
        3 => '3',
        4 => '4',
        5 => '5',
        6 => '6',
        7 => '7',
        8 => '8',
        _ => '9',
    }
}

/// The decimal rendering of `n`.
pub fn u64_to_string(n: u64) -> (r: String)
    ensures
        r@ == dec_str(n as nat),
    decreases n,
{
    let d: u64 = n % 10;
    let c: char = match d {
        0 => '0',
        1 => '1',
        2 => '2',
        3 => '3',
        4 => '4',
        5 => '5',
        6 => '6',
        7 => '7',
        8 => '8',
        _ => '9',
    };
    proof {
        assert(c == char_of_digit(n as int % 10));
    }
    if n < 10 {
        let mut r = String::new();
        push_char(&mut r, c);
        proof {
            assert(r@ =~= dec_str(n as nat));
        }
        r
    } else {
        let mut r = u64_to_string(n / 10);
        push_char(&mut r, c);
        r
    }
}

} // verus!
