//! Character-level text utilities: whitespace tokenization, decimal
//! parsing and formatting, and byte-wise lexicographic order.
//!
//! Everything here is executable and verified against small spec
//! functions over `Seq<char>` / `Seq<u8>`; the listing parser and the
//! presentation ordering of listings are built on these.

use vstd::prelude::*;
use vstd::string::StrSliceExecFns;

verus! {

/// The Unicode White_Space set: the separators a listing line is
/// split on, as the standard whitespace splitter defines them.
pub open spec fn is_wspace(c: char) -> bool {
    ||| c == ' '
    ||| ('\u{9}' as u32) <= (c as u32) <= ('\u{d}' as u32)
    ||| c == '\u{85}'
    ||| c == '\u{a0}'
    ||| c == '\u{1680}'
    ||| ('\u{2000}' as u32) <= (c as u32) <= ('\u{200a}' as u32)
    ||| c == '\u{2028}'
    ||| c == '\u{2029}'
    ||| c == '\u{202f}'
    ||| c == '\u{205f}'
    ||| c == '\u{3000}'
}

/// Length of the maximal leading run of non-whitespace characters.
pub open spec fn head_token_len(s: Seq<char>) -> nat
    decreases s.len(),
{
    if s.len() == 0 || is_wspace(s[0]) {
        0
    } else {
        1 + head_token_len(s.drop_first())
    }
}

/// The whitespace-separated tokens of a line, in order. Every token is
/// nonempty; runs of whitespace separate and never appear in tokens.
pub open spec fn tokens_of(s: Seq<char>) -> Seq<Seq<char>>
    decreases s.len(),
    via tokens_of_decreases
{
    if s.len() == 0 {
        Seq::empty()
    } else if is_wspace(s[0]) {
        tokens_of(s.drop_first())
    } else {
        seq![s.take(head_token_len(s) as int)] + tokens_of(s.skip(head_token_len(s) as int))
    }
}

#[via_fn]
proof fn tokens_of_decreases(s: Seq<char>) {
    if s.len() != 0 && !is_wspace(s[0]) {
        lemma_head_le_len(s);
    }
}

pub fn wspace(c: char) -> (r: bool)
    ensures
        r == is_wspace(c),
{
    let u = c as u32;
    u == 0x20 || (0x9 <= u && u <= 0xd) || u == 0x85 || u == 0xa0 || u == 0x1680 || (0x2000 <= u
        && u <= 0x200a) || u == 0x2028 || u == 0x2029 || u == 0x202f || u == 0x205f || u == 0x3000
}

/// The maximal non-whitespace run starting a sequence whose first `k`
/// characters are non-whitespace and whose `k`-th is whitespace (or the
/// end) has length exactly `k`.
proof fn lemma_head_token_len(s: Seq<char>, k: int)
    requires
        0 <= k <= s.len(),
        forall|m: int| 0 <= m < k ==> !is_wspace(s[m]),
        k == s.len() || is_wspace(s[k]),
    ensures
        head_token_len(s) == k,
    decreases k,
{
    if k == 0 {
    } else {
        assert(!is_wspace(s[0]));
        let t = s.drop_first();
        assert(forall|m: int| 0 <= m < k - 1 ==> t[m] == s[m + 1] && !is_wspace(t[m]));
        lemma_head_token_len(t, k - 1);
    }
}

/// The leading token never runs past the end of the sequence.
pub proof fn lemma_head_le_len(s: Seq<char>)
    ensures
        head_token_len(s) <= s.len(),
    decreases s.len(),
{
    if s.len() == 0 || is_wspace(s[0]) {
    } else {
        lemma_head_le_len(s.drop_first());
    }
}

/// Collect the whitespace-separated tokens of a line as sub-slices.
pub fn tokenize<'a>(line: &'a str) -> (toks: Vec<&'a str>)
    ensures
        toks@.map_values(|t: &str| t@) == tokens_of(line@),
        forall|k: int| 0 <= k < toks@.len() ==> (#[trigger] toks@[k])@.len() > 0,
{
    let n = line.unicode_len();
    let mut toks: Vec<&'a str> = Vec::new();
    let mut i: usize = 0;
    proof {
        assert(line@.skip(0) =~= line@);
        assert(toks@.map_values(|t: &str| t@) + tokens_of(line@) =~= tokens_of(line@));
    }
    while i < n
        invariant
            0 <= i <= n,
            n == line@.len(),
            tokens_of(line@) == toks@.map_values(|t: &str| t@) + tokens_of(line@.skip(i as int)),
            forall|k: int| 0 <= k < toks@.len() ==> (#[trigger] toks@[k])@.len() > 0,
        decreases n - i,
    {
        let c = line.get_char(i);
        if wspace(c) {
            proof {
                assert(line@.skip(i as int).drop_first() =~= line@.skip(i + 1));
                assert(line@.skip(i as int)[0] == line@[i as int]);
            }
            i = i + 1;
        } else {
            let start = i;
            let mut j: usize = i + 1;
            while j < n && !wspace(line.get_char(j))
                invariant
                    start < j <= n,
                    n == line@.len(),
                    forall|m: int| start <= m < j ==> !is_wspace(#[trigger] line@[m]),
                decreases n - j,
            {
                j = j + 1;
            }
            let tok = line.substring_char(start, j);
            proof {
                let rest = line@.skip(start as int);
                assert(forall|m: int| 0 <= m < j - start ==> rest[m] == line@[m + start]);
                assert(j == n || is_wspace(line@[j as int]));
                lemma_head_token_len(rest, j - start);
                assert(rest.take(j - start) =~= line@.subrange(start as int, j as int));
                assert(rest.skip(j - start) =~= line@.skip(j as int));
                assert(tokens_of(rest) == seq![line@.subrange(start as int, j as int)]
                    + tokens_of(line@.skip(j as int)));
            }
            let ghost old_toks = toks@;
            toks.push(tok);
            proof {
                assert(toks@.map_values(|t: &str| t@) =~= old_toks.map_values(|t: &str| t@).push(
                    tok@,
                ));
                assert(old_toks.map_values(|t: &str| t@).push(tok@) + tokens_of(
                    line@.skip(j as int),
                ) =~= old_toks.map_values(|t: &str| t@) + (seq![tok@] + tokens_of(
                    line@.skip(j as int),
                )));
            }
            i = j;
        }
    }
    proof {
        assert(line@.skip(n as int) =~= Seq::<char>::empty());
        assert(tokens_of(line@) =~= toks@.map_values(|t: &str| t@));
    }
    toks
}

/// Every token of a line is a nonempty run of non-whitespace characters.
pub proof fn lemma_tokens_nonempty(s: Seq<char>)
    ensures
        forall|k: int|
            0 <= k < tokens_of(s).len() ==> (#[trigger] tokens_of(s)[k]).len() > 0,
    decreases s.len(),
{
    if s.len() == 0 {
    } else if is_wspace(s[0]) {
        lemma_tokens_nonempty(s.drop_first());
        assert(tokens_of(s) == tokens_of(s.drop_first()));
    } else {
        let h = head_token_len(s) as int;
        assert(h > 0);
        lemma_head_le_len(s);
        lemma_tokens_nonempty(s.skip(h));
        assert forall|k: int| 0 <= k < tokens_of(s).len() implies (#[trigger] tokens_of(
            s,
        )[k]).len() > 0 by {
            if k == 0 {
                assert(tokens_of(s)[0] == s.take(h));
            } else {
                assert(tokens_of(s)[k] == tokens_of(s.skip(h))[k - 1]);
            }
        }
    }
}

pub open spec fn is_digit(c: char) -> bool {
    48 <= c as u32 <= 57
}

/// The numeric value of a decimal digit; other characters count as 0.
pub open spec fn digit_val(c: char) -> nat {
    if is_digit(c) {
        (c as u32 - 48) as nat
    } else {
        0
    }
}

/// The value of a big-endian decimal digit string.
pub open spec fn dec_value(s: Seq<char>) -> nat
    decreases s.len(),
{
    if s.len() == 0 {
        0
    } else {
        dec_value(s.drop_last()) * 10 + digit_val(s.last())
    }
}

pub open spec fn all_digits(s: Seq<char>) -> bool {
    forall|i: int| 0 <= i < s.len() ==> is_digit(#[trigger] s[i])
}

/// The digit part of an unsigned decimal literal: an optional leading
/// `+` is skipped, as the standard library's `u64` parser does.
pub open spec fn u64_body(s: Seq<char>) -> Seq<char> {
    if s.len() > 0 && s[0] == '+' {
        s.drop_first()
    } else {
        s
    }
}

/// Whether a string parses as a `u64`: a nonempty digit string after an
/// optional `+`, whose value fits.
pub open spec fn u64_str_valid(s: Seq<char>) -> bool {
    u64_body(s).len() > 0 && all_digits(u64_body(s)) && dec_value(u64_body(s)) <= u64::MAX
}

/// A digit string's value only grows as digits are appended.
proof fn lemma_dec_value_mono(s: Seq<char>, k: int)
    requires
        0 <= k <= s.len(),
    ensures
        dec_value(s.take(k)) <= dec_value(s),
    decreases s.len() - k,
{
    if k == s.len() {
        assert(s.take(k) =~= s);
    } else {
        assert(s.take(k + 1).drop_last() =~= s.take(k));
        assert(s.take(k + 1).last() == s[k]);
        assert(dec_value(s.take(k + 1)) == dec_value(s.take(k)) * 10 + digit_val(s[k]));
        lemma_dec_value_mono(s, k + 1);
    }
}

/// Parse an unsigned decimal integer, as the standard `u64` parser
/// accepts it: `None` exactly on empty input, a stray character, or
/// overflow.
#[verifier::rlimit(30)]
pub fn parse_u64(tok: &str) -> (r: Option<u64>)
    ensures
        r is Some <==> u64_str_valid(tok@),
        r is Some ==> r->0 as nat == dec_value(u64_body(tok@)),
{
    let n = tok.unicode_len();
    let start: usize = if n > 0 && tok.get_char(0) == '+' {
        1
    } else {
        0
    };
    let ghost b = u64_body(tok@);
    proof {
        assert(b =~= tok@.skip(start as int));
    }
    if n == start {
        return None;
    }
    let mut acc: u64 = 0;
    let mut i: usize = start;
    proof {
        assert(b.take(0) =~= Seq::<char>::empty());
    }
    while i < n
        invariant
            start <= i <= n,
            n == tok@.len(),
            b == u64_body(tok@),
            b == tok@.skip(start as int),
            b.len() == n - start,
            acc as nat == dec_value(b.take(i - start)),
            all_digits(b.take(i - start)),
        decreases n - i,
    {
        let c = tok.get_char(i);
        let cu = c as u32;
        let ghost k = i - start;
        proof {
            assert(b[k] == tok@[i as int]);
        }
        if cu < 48 || cu > 57 {
            proof {
                assert(!is_digit(b[k]));
                assert(!all_digits(b));
            }
            return None;
        }
        let d = (cu - 48) as u64;
        proof {
            assert(b.take(k + 1).drop_last() =~= b.take(k));
            assert(b.take(k + 1).last() == b[k]);
            assert(b.take(k + 1) =~= b.take(k).push(b[k]));
        }
        let step = match acc.checked_mul(10) {
            Some(m) => m.checked_add(d),
            None => None,
        };
        match step {
            Some(v) => {
                acc = v;
            },
            None => {
                proof {
                    assert(dec_value(b.take(k + 1)) > u64::MAX);
                    lemma_dec_value_mono(b, k + 1);
                }
                return None;
            },
        }
        i = i + 1;
    }
    proof {
        assert(b.take(n - start) =~= b);
    }
    Some(acc)
}

/// The decimal digit character for a value below ten.
pub open spec fn digit_char(d: nat) -> char {
    if d == 0 {
        '0'
    } else if d == 1 {
        '1'
    } else if d == 2 {
        '2'
    } else if d == 3 {
        '3'
    } else if d == 4 {
        '4'
    } else if d == 5 {
        '5'
    } else if d == 6 {
        '6'
    } else if d == 7 {
        '7'
    } else if d == 8 {
        '8'
    } else {
        '9'
    }
}

/// The canonical decimal rendering of a number, without sign or leading
/// zeros (a single `0` for zero).
pub open spec fn dec_seq(n: nat) -> Seq<char>
    decreases n,
{
    if n < 10 {
        seq![digit_char(n)]
    } else {
        dec_seq(n / 10).push(digit_char(n % 10))
    }
}

fn digit_str(d: u64) -> (r: &'static str)
    requires
        d < 10,
    ensures
        r@ == seq![digit_char(d as nat)],
{
    proof {
        reveal_strlit("0");
        reveal_strlit("1");
        reveal_strlit("2");
        reveal_strlit("3");
        reveal_strlit("4");
        reveal_strlit("5");
        reveal_strlit("6");
        reveal_strlit("7");
        reveal_strlit("8");
        reveal_strlit("9");
    }
    match d {
        0 => "0",
        1 => "1",
        2 => "2",
        3 => "3",
        4 => "4",
        5 => "5",
        6 => "6",
        7 => "7",
        8 => "8",
        _ => "9",
    }
}

/// Render a number in decimal.
pub fn u64_to_dec(n: u64) -> (s: String)
    ensures
        s@ == dec_seq(n as nat),
{
    let mut parts: Vec<&'static str> = Vec::new();
    let ghost mut acc: Seq<char> = Seq::empty();
    let mut m: u64 = n;
    while m >= 10
        invariant
            dec_seq(n as nat) == dec_seq(m as nat) + acc,
            parts@.len() == acc.len(),
            forall|k: int|
                0 <= k < parts@.len() ==> (#[trigger] parts@[k])@ == seq![
                    acc[parts@.len() - 1 - k],
                ],
        decreases m,
    {
        let d = m % 10;
        let p = digit_str(d);
        proof {
            assert(dec_seq(m as nat) == dec_seq((m / 10) as nat).push(digit_char((m % 10) as nat)));
            assert(dec_seq((m / 10) as nat).push(digit_char(d as nat)) =~= dec_seq((m / 10) as nat)
                + seq![digit_char(d as nat)]);
            assert(dec_seq(n as nat) =~= dec_seq((m / 10) as nat) + (seq![digit_char(d as nat)]
                + acc));
        }
        parts.push(p);
        proof {
            acc = seq![digit_char(d as nat)] + acc;
        }
        m = m / 10;
    }
    let p = digit_str(m);
    proof {
        assert(dec_seq(m as nat) =~= seq![digit_char(m as nat)]);
        assert(dec_seq(n as nat) =~= seq![digit_char(m as nat)] + acc);
    }
    parts.push(p);
    proof {
        acc = seq![digit_char(m as nat)] + acc;
    }
    let total = parts.len();
    let mut out = String::new();
    let mut t: usize = 0;
    proof {
        assert(out@ =~= acc.take(0));
    }
    while t < total
        invariant
            0 <= t <= total,
            total == parts@.len(),
            acc.len() == total,
            dec_seq(n as nat) == acc,
            forall|k: int|
                0 <= k < parts@.len() ==> (#[trigger] parts@[k])@ == seq![acc[total - 1 - k]],
            out@ == acc.take(t as int),
        decreases total - t,
    {
        let piece = parts[total - 1 - t];
        out.append(piece);
        proof {
            assert(acc.take(t as int).push(acc[t as int]) =~= acc.take(t + 1));
        }
        t = t + 1;
    }
    proof {
        assert(acc.take(total as int) =~= acc);
    }
    out
}

/// Lexicographic order on byte strings: the order `String` comparison
/// gives on UTF-8 bytes.
pub open spec fn lex_le(a: Seq<u8>, b: Seq<u8>) -> bool
    decreases a.len(),
{
    if a.len() == 0 {
        true
    } else if b.len() == 0 {
        false
    } else if a[0] < b[0] {
        true
    } else if a[0] > b[0] {
        false
    } else {
        lex_le(a.drop_first(), b.drop_first())
    }
}

/// `lex_le` is total: two byte strings always compare one way or the
/// other.
pub proof fn lemma_lex_total(a: Seq<u8>, b: Seq<u8>)
    ensures
        lex_le(a, b) || lex_le(b, a),
    decreases a.len(),
{
    if a.len() == 0 || b.len() == 0 {
    } else if a[0] == b[0] {
        lemma_lex_total(a.drop_first(), b.drop_first());
    }
}

/// `lex_le` is transitive.
pub proof fn lemma_lex_trans(a: Seq<u8>, b: Seq<u8>, c: Seq<u8>)
    requires
        lex_le(a, b),
        lex_le(b, c),
    ensures
        lex_le(a, c),
    decreases a.len(),
{
    if a.len() == 0 {
    } else {
        assert(b.len() > 0);
        assert(c.len() > 0);
        if a[0] == b[0] && b[0] == c[0] {
            lemma_lex_trans(a.drop_first(), b.drop_first(), c.drop_first());
        }
    }
}

/// Compare two byte strings lexicographically.
pub fn bytes_le(a: &Vec<u8>, b: &Vec<u8>) -> (r: bool)
    ensures
        r == lex_le(a@, b@),
{
    let mut i: usize = 0;
    proof {
        assert(a@.skip(0) =~= a@);
        assert(b@.skip(0) =~= b@);
    }
    while i < a.len() && i < b.len()
        invariant
            0 <= i <= a@.len(),
            0 <= i <= b@.len(),
            lex_le(a@, b@) == lex_le(a@.skip(i as int), b@.skip(i as int)),
        decreases a@.len() - i,
    {
        let x = a[i];
        let y = b[i];
        proof {
            assert(a@.skip(i as int)[0] == a@[i as int]);
            assert(b@.skip(i as int)[0] == b@[i as int]);
            assert(a@.skip(i as int).drop_first() =~= a@.skip(i + 1));
            assert(b@.skip(i as int).drop_first() =~= b@.skip(i + 1));
        }
        if x < y {
            return true;
        }
        if x > y {
            return false;
        }
        i = i + 1;
    }
    proof {
        if i == a@.len() {
            assert(a@.skip(i as int).len() == 0);
        } else {
            assert(b@.skip(i as int).len() == 0);
            assert(a@.skip(i as int).len() > 0);
        }
    }
    a.len() <= b.len()
}

} // verus!
