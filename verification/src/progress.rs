//! Decoder for the external tool's textual progress protocol.
//!
//! A line is a progress update only if it carries the download-phase
//! marker and a percent sign. The percentage is the first
//! whitespace-delimited token ending in `%`; the speed is the first token
//! containing the rate marker `/s`; the ETA is the token following the
//! literal `ETA`. Anything that does not decode simply yields nothing:
//! garbled lines from an interleaved stream are expected.

use vstd::prelude::*;
use vstd::string::StrSliceExecFns;
use vstd::string::StringExecFns;

use crate::strutil::{
    all_digits, all_digits_range, contains_char, contains_char_exec, contains_sub,
    contains_sub_exec, dec_val, extract_string, find_char, find_char_exec, find_sub,
    find_sub_exec, first_where, first_where_from, lemma_dec_val_nonneg, parse_digits_u64,
    tokenize, tokenize_from, tokens, tokens_from,
};

verus! {

/// One decoded progress tick. The percentage is in thousandths of a
/// percent, so `42.0%` decodes to `42000`.
pub struct ProgressUpdate {
    pub percent_milli: u64,
    pub speed: String,
    pub eta: String,
}

/// The marker token that identifies the tool's download phase.
pub open spec fn spec_marker() -> Seq<char> {
    "[download]"@
}

/// A line is eligible as a progress update when it holds the phase marker
/// and a percent sign.
pub open spec fn spec_is_progress_line(s: Seq<char>) -> bool {
    contains_sub(s, spec_marker()) && contains_char(s, '%')
}

/// A token that reads as a percentage: non-empty and ending in `%`.
pub open spec fn is_pct_token(t: Seq<char>) -> bool {
    t.len() > 0 && t.last() == '%'
}

/// A token that reads as a rate: it contains the marker `/s`.
pub open spec fn is_speed_token(t: Seq<char>) -> bool {
    contains_sub(t, "/s"@)
}

/// The first whitespace-delimited token of `s` ending in `%`, if any.
pub open spec fn spec_percent_token(s: Seq<char>) -> Option<Seq<char>> {
    first_where(tokens(s), |t: Seq<char>| is_pct_token(t))
}

/// Thousandths contributed by a fraction part: the first three fraction
/// digits, scaled; digits past the third are truncated.
pub open spec fn spec_frac_milli(f: Seq<char>) -> int {
    if f.len() == 0 {
        0
    } else if f.len() == 1 {
        100 * dec_val(f)
    } else if f.len() == 2 {
        10 * dec_val(f)
    } else {
        dec_val(f.take(3))
    }
}

/// Value in thousandths of a percent of the text before the `%` sign.
/// The accepted shape is one or more digits, optionally followed by a
/// point and further digits — the shape the tool emits. Anything else is
/// not a percentage.
pub open spec fn spec_percent_milli(t: Seq<char>) -> Option<int> {
    match find_char(t, '.') {
        None => if t.len() > 0 && all_digits(t) {
            Some(1000 * dec_val(t))
        } else {
            None
        },
        Some(k) => {
            let ip = t.take(k);
            let fp = t.skip(k + 1);
            if k > 0 && all_digits(ip) && all_digits(fp) {
                Some(1000 * dec_val(ip) + spec_frac_milli(fp))
            } else {
                None
            }
        },
    }
}

/// The first token of `s` containing the rate marker `/s`, if any.
pub open spec fn spec_speed_token(s: Seq<char>) -> Option<Seq<char>> {
    first_where(tokens(s), |t: Seq<char>| is_speed_token(t))
}

/// The token immediately following the first literal `ETA`, if any.
pub open spec fn spec_eta_token(s: Seq<char>) -> Option<Seq<char>> {
    match find_sub(s, "ETA"@) {
        None => None,
        Some(j) => {
            let rest = tokens_from(s, j + 3);
            if rest.len() > 0 {
                Some(rest[0])
            } else {
                None
            }
        },
    }
}

/// What a line decodes to: `None` for anything that is not a progress
/// update, else the percentage in thousandths together with the speed and
/// ETA texts, each defaulting to `--` when absent. A percentage too large
/// for the engine's integer range is treated as undecodable.
pub open spec fn spec_parse_progress(s: Seq<char>) -> Option<(int, Seq<char>, Seq<char>)> {
    if !spec_is_progress_line(s) {
        None
    } else {
        match spec_percent_token(s) {
            None => None,
            Some(t) => match spec_percent_milli(t.drop_last()) {
                None => None,
                Some(v) => if v <= u64::MAX {
                    Some(
                        (
                            v,
                            match spec_speed_token(s) {
                                Some(sp) => sp,
                                None => "--"@,
                            },
                            match spec_eta_token(s) {
                                Some(e) => e,
                                None => "--"@,
                            },
                        ),
                    )
                } else {
                    None
                },
            },
        }
    }
}

/// Decodes the text before a `%` sign, in thousandths of a percent.
fn parse_percent_milli(body: &str) -> (r: Option<u64>)
    ensures
        match r {
            Some(v) => spec_percent_milli(body@) == Some(v as int),
            None => match spec_percent_milli(body@) {
                Some(v) => v > u64::MAX,
                None => true,
            },
        },
{
    let n = body.unicode_len();
    match find_char_exec(body, '.', 0) {
        None => {
            if n == 0 || !all_digits_range(body, 0, n) {
                proof {
                    assert(body@.subrange(0, n as int) =~= body@);
                }
                return None;
            }
            proof {
                assert(body@.subrange(0, n as int) =~= body@);
            }
            let v = match parse_digits_u64(body, 0, n) {
                Some(v) => v,
                None => {
                    proof {
                        lemma_dec_val_nonneg(body@);
                    }
                    return None;
                },
            };
            if v > u64::MAX / 1000 {
                return None;
            }
            Some(1000 * v)
        },
        Some(k) => {
            let ghost ip = body@.take(k as int);
            let ghost fp = body@.skip(k + 1);
            if k == 0 {
                return None;
            }
            if !all_digits_range(body, 0, k) {
                proof {
                    assert(body@.subrange(0, k as int) =~= ip);
                }
                return None;
            }
            if !all_digits_range(body, k + 1, n) {
                proof {
                    assert(body@.subrange(k + 1, n as int) =~= fp);
                }
                return None;
            }
            proof {
                assert(body@.subrange(0, k as int) =~= ip);
                assert(body@.subrange(k + 1, n as int) =~= fp);
            }
            let vi = match parse_digits_u64(body, 0, k) {
                Some(v) => v,
                None => {
                    proof {
                        lemma_dec_val_nonneg(fp);
                        if fp.len() >= 3 {
                            assert forall|q: int| 0 <= q < fp.take(3).len() implies
                                crate::strutil::is_digit_char(#[trigger] fp.take(3)[q]) by {
                                assert(fp.take(3)[q] == fp[q]);
                            }
                            lemma_dec_val_nonneg(fp.take(3));
                        }
                    }
                    return None;
                },
            };
            let flen: usize = n - (k + 1);
            let fcount: usize = if flen > 3 {
                3
            } else {
                flen
            };
            let fv = match parse_digits_u64(body, k + 1, k + 1 + fcount) {
                Some(v) => v,
                None => {
                    proof {
                        // at most three digits never overflow
                        assert(false) by {
                            lemma_small_digits_bound(body@.subrange(k + 1, k + 1 + fcount as int));
                        }
                    }
                    return None;
                },
            };
            proof {
                lemma_small_digits_bound(body@.subrange(k + 1, k + 1 + fcount as int));
            }
            let fm: u64 = if flen == 0 {
                0
            } else if flen == 1 {
                100 * fv
            } else if flen == 2 {
                10 * fv
            } else {
                fv
            };
            proof {
                if flen >= 3 {
                    assert(body@.subrange(k + 1, k + 1 + 3) =~= fp.take(3));
                } else {
                    assert(body@.subrange(k + 1, k + 1 + fcount as int) =~= fp);
                }
                assert(fm == spec_frac_milli(fp));
            }
            if vi > (u64::MAX - fm) / 1000 {
                proof {
                    lemma_dec_val_nonneg(ip);
                }
                return None;
            }
            Some(1000 * vi + fm)
        },
    }
}

/// Decodes one line of the tool's output. `None` means the line is not a
/// progress update — the normal case for most lines, never an error.
pub fn parse_progress(line: &str) -> (r: Option<ProgressUpdate>)
    ensures
        match r {
            Some(p) => spec_parse_progress(line@) matches Some(v) && p.percent_milli == v.0
                && p.speed@ == v.1 && p.eta@ == v.2,
            None => spec_parse_progress(line@) is None,
        },
{
    if !contains_sub_exec(line, "[download]") || !contains_char_exec(line, '%') {
        return None;
    }
    let n = line.unicode_len();
    let ranges = tokenize(line);
    let ghost toks = tokens(line@);

    // the first token ending in `%`
    let mut pct: Option<(usize, usize)> = None;
    let mut i: usize = 0;
    while i < ranges.len() && pct.is_none()
        invariant
            ranges@.map_values(|t: (usize, usize)| line@.subrange(t.0 as int, t.1 as int))
                == toks,
            forall|q: int|
                0 <= q < ranges@.len() ==> (#[trigger] ranges@[q]).0 < ranges@[q].1
                    <= line@.len(),
            0 <= i <= ranges@.len(),
            match pct {
                Some((a, b)) => first_where_from(toks, |t: Seq<char>| is_pct_token(t), 0)
                    == Some(line@.subrange(a as int, b as int)) && a < b <= line@.len(),
                None => first_where_from(toks, |t: Seq<char>| is_pct_token(t), 0)
                    == first_where_from(toks, |t: Seq<char>| is_pct_token(t), i as int),
            },
        decreases ranges@.len() - i,
    {
        let (a, b) = ranges[i];
        proof {
            assert(toks[i as int] == line@.subrange(a as int, b as int));
        }
        if line.get_char(b - 1) == '%' {
            proof {
                assert(toks[i as int].last() == line@[b - 1]);
                assert(is_pct_token(toks[i as int]));
            }
            pct = Some((a, b));
        } else {
            proof {
                assert(toks[i as int].last() == line@[b - 1]);
                assert(!is_pct_token(toks[i as int]));
            }
        }
        i += 1;
    }
    let (pa, pb) = match pct {
        Some(p) => p,
        None => {
            return None;
        },
    };

    // its numeric value
    let ghost t = line@.subrange(pa as int, pb as int);
    let body = line.substring_char(pa, pb - 1);
    proof {
        assert(body@ =~= t.drop_last());
    }
    let percent_milli = match parse_percent_milli(body) {
        Some(v) => v,
        None => {
            return None;
        },
    };

    // the first token containing `/s`
    let mut speed: Option<String> = None;
    let mut j: usize = 0;
    while j < ranges.len() && speed.is_none()
        invariant
            ranges@.map_values(|t: (usize, usize)| line@.subrange(t.0 as int, t.1 as int))
                == toks,
            forall|q: int|
                0 <= q < ranges@.len() ==> (#[trigger] ranges@[q]).0 < ranges@[q].1
                    <= line@.len(),
            0 <= j <= ranges@.len(),
            match speed {
                Some(sp) => first_where_from(toks, |t: Seq<char>| is_speed_token(t), 0)
                    == Some(sp@),
                None => first_where_from(toks, |t: Seq<char>| is_speed_token(t), 0)
                    == first_where_from(toks, |t: Seq<char>| is_speed_token(t), j as int),
            },
        decreases ranges@.len() - j,
    {
        let (a, b) = ranges[j];
        proof {
            assert(toks[j as int] == line@.subrange(a as int, b as int));
        }
        let tok = line.substring_char(a, b);
        if contains_sub_exec(tok, "/s") {
            speed = Some(String::from_str(tok));
        }
        j += 1;
    }
    let speed = match speed {
        Some(sp) => sp,
        None => String::from_str("--"),
    };

    // the token after the literal `ETA`
    let eta: String = match find_sub_exec(line, "ETA", 0) {
        Some(k) => {
            proof {
                reveal_strlit("ETA");
                assert(k + 3 <= n);
            }
            let rest = tokenize_from(line, k + 3);
            if rest.len() > 0 {
                let (a, b) = rest[0];
                proof {
                    assert(tokens_from(line@, k + 3)[0] == line@.subrange(
                        a as int,
                        b as int,
                    ));
                }
                extract_string(line, a, b)
            } else {
                String::from_str("--")
            }
        },
        None => String::from_str("--"),
    };

    Some(ProgressUpdate { percent_milli, speed, eta })
}

/// Ten to the `n`.
pub open spec fn pow10(n: nat) -> int
    decreases n,
{
    if n == 0 {
        1
    } else {
        10 * pow10((n - 1) as nat)
    }
}

/// A digit string's value is below ten to its length.
pub proof fn lemma_dec_val_upper(s: Seq<char>)
    requires
        all_digits(s),
    ensures
        dec_val(s) < pow10(s.len()),
    decreases s.len(),
{
    if s.len() > 0 {
        assert forall|q: int| 0 <= q < s.drop_last().len() implies crate::strutil::is_digit_char(
            #[trigger] s.drop_last()[q],
        ) by {
            assert(s.drop_last()[q] == s[q]);
        }
        lemma_dec_val_upper(s.drop_last());
        lemma_dec_val_nonneg(s.drop_last());
    }
}

/// A digit string of at most three digits is below one thousand.
proof fn lemma_small_digits_bound(s: Seq<char>)
    requires
        all_digits(s),
        s.len() <= 3,
    ensures
        0 <= dec_val(s) < 1000,
{
    lemma_dec_val_nonneg(s);
    lemma_dec_val_upper(s);
    assert(pow10(s.len()) <= 1000) by {
        reveal_with_fuel(pow10, 4);
    }
}

} // verus!
