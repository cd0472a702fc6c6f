//! Small verified text utilities the command protocol is built on: splitting
//! a line into whitespace-separated tokens, ASCII case folding, and decimal
//! reading and writing of `u64` values.

use vstd::prelude::*;

verus! {

/// ASCII case folding of one character.
pub open spec fn spec_lower_char(c: char) -> char {
    if 'A' <= c && c <= 'Z' {
        ((c as u8) + 32) as char
    } else {
        c
    }
}

/// ASCII case folding of a whole character sequence.
pub open spec fn spec_lower(s: Seq<char>) -> Seq<char> {
    Seq::new(s.len(), |i: int| spec_lower_char(s[i]))
}

/// The characters that separate tokens on a command line.
pub open spec fn spec_is_space(c: char) -> bool {
    c == ' ' || c == '\t' || c == '\r' || c == '\n'
}

/// Length of the maximal non-space prefix of `s`.
pub open spec fn spec_token_len(s: Seq<char>) -> int
    decreases s.len(),
{
    if s.len() == 0 || spec_is_space(s.first()) {
        0
    } else {
        1 + spec_token_len(s.drop_first())
    }
}

/// `spec_token_len` stays within the sequence.
pub proof fn lemma_token_len_bounds(s: Seq<char>)
    ensures
        0 <= spec_token_len(s) <= s.len(),
    decreases s.len(),
{
    if s.len() != 0 && !spec_is_space(s.first()) {
        lemma_token_len_bounds(s.drop_first());
    }
}

/// `spec_token_len` is exactly the index of the first space (or the length
/// when there is none).
pub proof fn lemma_token_len_is(s: Seq<char>, m: int)
    requires
        0 <= m <= s.len(),
        forall|k: int| 0 <= k < m ==> !spec_is_space(s[k]),
        m < s.len() ==> spec_is_space(s[m]),
    ensures
        spec_token_len(s) == m,
    decreases m,
{
    if m == 0 {
    } else {
        assert(!spec_is_space(s.first()));
        let t = s.drop_first();
        assert(forall|k: int| 0 <= k < m - 1 ==> s[k + 1] == t[k] && !spec_is_space(t[k]));
        assert(m - 1 < t.len() ==> spec_is_space(t[m - 1]));
        lemma_token_len_is(t, m - 1);
    }
}

/// The whitespace-separated tokens of `s`, in order.
pub open spec fn spec_tokens(s: Seq<char>) -> Seq<Seq<char>>
    decreases s.len(),
    via spec_tokens_decreases
{
    if s.len() == 0 {
        Seq::empty()
    } else if spec_is_space(s.first()) {
        spec_tokens(s.drop_first())
    } else {
        seq![s.take(spec_token_len(s))] + spec_tokens(s.skip(spec_token_len(s)))
    }
}

#[via_fn]
proof fn spec_tokens_decreases(s: Seq<char>) {
    lemma_token_len_bounds(s);
    if s.len() != 0 && !spec_is_space(s.first()) {
        lemma_token_len_bounds(s.drop_first());
    }
}

/// A single word with no separators in it tokenizes to itself.
pub proof fn lemma_tokens_single_word(w: Seq<char>)
    requires
        w.len() > 0,
        forall|i: int| 0 <= i < w.len() ==> !spec_is_space(w[i]),
    ensures
        spec_tokens(w) == seq![w],
{
    lemma_token_len_is(w, w.len() as int);
    assert(w.take(w.len() as int) =~= w);
    assert(w.skip(w.len() as int) =~= Seq::<char>::empty());
    assert(seq![w] + spec_tokens(Seq::<char>::empty()) =~= seq![w]);
}

/// A word, one space, and a remainder tokenize to the word followed by the
/// remainder's tokens.
pub proof fn lemma_tokens_word_then(w: Seq<char>, rest: Seq<char>)
    requires
        w.len() > 0,
        forall|i: int| 0 <= i < w.len() ==> !spec_is_space(w[i]),
    ensures
        spec_tokens(w + seq![' '] + rest) == seq![w] + spec_tokens(rest),
{
    let s = w + seq![' '] + rest;
    assert(forall|k: int| 0 <= k < w.len() ==> s[k] == w[k]);
    assert(s[w.len() as int] == ' ');
    lemma_token_len_is(s, w.len() as int);
    assert(s.take(w.len() as int) =~= w);
    assert(s.skip(w.len() as int) =~= seq![' '] + rest);
    assert((seq![' '] + rest)[0] == ' ');
    assert((seq![' '] + rest).drop_first() =~= rest);
    assert(spec_tokens(seq![' '] + rest) == spec_tokens(rest));
    assert(spec_tokens(s) == seq![s.take(spec_token_len(s))] + spec_tokens(
        s.skip(spec_token_len(s)),
    ));
    assert(spec_tokens(s) == seq![w] + spec_tokens(rest));
}

/// The character of a digit reads back as that digit.
proof fn lemma_digit_char_val(d: int)
    requires
        0 <= d <= 9,
    ensures
        spec_digit_val(spec_digit_char(d)) == d,
        spec_is_digit(spec_digit_char(d)),
{
    if d == 0 {
        assert(spec_digit_char(0) == '0');
    } else if d == 1 {
        assert(spec_digit_char(1) == '1');
    } else if d == 2 {
        assert(spec_digit_char(2) == '2');
    } else if d == 3 {
        assert(spec_digit_char(3) == '3');
    } else if d == 4 {
        assert(spec_digit_char(4) == '4');
    } else if d == 5 {
        assert(spec_digit_char(5) == '5');
    } else if d == 6 {
        assert(spec_digit_char(6) == '6');
    } else if d == 7 {
        assert(spec_digit_char(7) == '7');
    } else if d == 8 {
        assert(spec_digit_char(8) == '8');
    } else {
        assert(spec_digit_char(9) == '9');
    }
}

/// The decimal notation of a number is made of digits only.
pub proof fn lemma_u64_string_all_digits(n: int)
    requires
        n >= 0,
    ensures
        spec_u64_string(n).len() > 0,
        forall|i: int| 0 <= i < spec_u64_string(n).len() ==> spec_is_digit(spec_u64_string(n)[i]),
    decreases n,
{
    if n < 10 {
        lemma_digit_char_val(n);
    } else {
        lemma_u64_string_all_digits(n / 10);
        lemma_digit_char_val(n % 10);
        assert(forall|i: int|
            0 <= i < spec_u64_string(n / 10).len() ==> spec_u64_string(n)[i] == spec_u64_string(
                n / 10,
            )[i]);
    }
}

/// Reading a number's decimal notation back gives the number.
pub proof fn lemma_dec_value_of_u64_string(n: int)
    requires
        n >= 0,
    ensures
        spec_dec_value(spec_u64_string(n)) == n,
    decreases n,
{
    if n < 10 {
        lemma_digit_char_val(n);
        assert(seq![spec_digit_char(n)].drop_last() =~= Seq::<char>::empty());
        assert(spec_dec_value(Seq::<char>::empty()) == 0);
        assert(seq![spec_digit_char(n)].last() == spec_digit_char(n));
    } else {
        lemma_dec_value_of_u64_string(n / 10);
        lemma_digit_char_val(n % 10);
        let s = spec_u64_string(n / 10);
        assert(s.push(spec_digit_char(n % 10)).drop_last() =~= s);
        assert(s.push(spec_digit_char(n % 10)).last() == spec_digit_char(n % 10));
        assert(spec_dec_value(s.push(spec_digit_char(n % 10))) == 10 * spec_dec_value(s)
            + spec_digit_val(spec_digit_char(n % 10)));
    }
}

/// A digit is not a separator.
pub proof fn lemma_digits_are_not_spaces(s: Seq<char>)
    requires
        forall|i: int| 0 <= i < s.len() ==> spec_is_digit(s[i]),
    ensures
        forall|i: int| 0 <= i < s.len() ==> !spec_is_space(s[i]),
{
}

/// Whether `c` separates tokens.
fn is_space(c: char) -> (r: bool)
    ensures
        r == spec_is_space(c),
{
    c == ' ' || c == '\t' || c == '\r' || c == '\n'
}

/// ASCII case folding of one character.
fn lower_char(c: char) -> (r: char)
    ensures
        r == spec_lower_char(c),
{
    if 'A' <= c && c <= 'Z' {
        ((c as u8) + 32) as char
    } else {
        c
    }
}

/// Split `line` into its whitespace-separated tokens; leading, trailing and
/// repeated whitespace is insignificant.
pub fn tokenize(line: &str) -> (toks: Vec<String>)
    ensures
        toks.deep_view() == spec_tokens(line@),
{
    let n = line.unicode_len();
    let mut toks: Vec<String> = Vec::new();
    let mut i: usize = 0;
    proof {
        assert(line@.skip(0) =~= line@);
        assert(toks.deep_view() + spec_tokens(line@) =~= spec_tokens(line@));
    }
    while i < n
        invariant
            i <= n,
            n == line@.len(),
            toks.deep_view() + spec_tokens(line@.skip(i as int)) == spec_tokens(line@),
        decreases n - i,
    {
        let c = line.get_char(i);
        if is_space(c) {
            proof {
                assert(line@.skip(i as int).drop_first() =~= line@.skip(i as int + 1));
            }
            i += 1;
        } else {
            let start = i;
            let mut j = i;
            while j < n && !is_space(line.get_char(j))
                invariant
                    start <= j <= n,
                    n == line@.len(),
                    forall|k: int| start <= k < j ==> !spec_is_space(line@[k]),
                decreases n - j,
            {
                j += 1;
            }
            let tok = line.substring_char(start, j).to_owned();
            let ghost before = toks.deep_view();
            toks.push(tok);
            proof {
                let rest = line@.skip(start as int);
                assert(forall|k: int|
                    0 <= k < j - start ==> rest[k] == line@[k + start]
                        && !spec_is_space(rest[k]));
                assert(j < n ==> rest[j - start] == line@[j as int] && spec_is_space(
                    rest[j - start],
                ));
                lemma_token_len_is(rest, j - start);
                assert(rest.take(j - start) =~= line@.subrange(start as int, j as int));
                assert(rest.skip(j - start) =~= line@.skip(j as int));
                assert(tok@ == line@.subrange(start as int, j as int));
                assert(toks.deep_view() =~= before.push(tok@));
                assert(spec_tokens(rest) == seq![rest.take(j - start)] + spec_tokens(
                    rest.skip(j - start),
                ));
                assert(before.push(tok@) + spec_tokens(line@.skip(j as int)) =~= before + (
                seq![tok@] + spec_tokens(line@.skip(j as int))));
                assert(toks.deep_view() + spec_tokens(line@.skip(j as int)) =~= spec_tokens(
                    line@,
                ));
            }
            i = j;
        }
    }
    proof {
        assert(line@.skip(n as int) =~= Seq::<char>::empty());
        assert(toks.deep_view() + spec_tokens(Seq::<char>::empty()) =~= toks.deep_view());
    }
    toks
}

/// Whether `a` and `b` are the same word up to ASCII case.
pub fn eq_ignore_case(a: &str, b: &str) -> (r: bool)
    ensures
        r == (spec_lower(a@) == spec_lower(b@)),
{
    let n = a.unicode_len();
    let m = b.unicode_len();
    if n != m {
        proof {
            assert(spec_lower(a@).len() != spec_lower(b@).len());
        }
        return false;
    }
    let mut i: usize = 0;
    while i < n
        invariant
            i <= n,
            n == a@.len(),
            n == b@.len(),
            forall|k: int| 0 <= k < i ==> spec_lower(a@)[k] == spec_lower(b@)[k],
        decreases n - i,
    {
        let ca = lower_char(a.get_char(i));
        let cb = lower_char(b.get_char(i));
        if ca != cb {
            proof {
                assert(spec_lower(a@)[i as int] != spec_lower(b@)[i as int]);
            }
            return false;
        }
        i += 1;
    }
    proof {
        assert(spec_lower(a@) =~= spec_lower(b@));
    }
    true
}

/// Whether `a` and `b` hold the same characters.
pub fn str_eq(a: &str, b: &str) -> (r: bool)
    ensures
        r == (a@ == b@),
{
    let n = a.unicode_len();
    let m = b.unicode_len();
    if n != m {
        return false;
    }
    let mut i: usize = 0;
    while i < n
        invariant
            i <= n,
            n == a@.len(),
            n == b@.len(),
            forall|k: int| 0 <= k < i ==> a@[k] == b@[k],
        decreases n - i,
    {
        if a.get_char(i) != b.get_char(i) {
            return false;
        }
        i += 1;
    }
    proof {
        assert(a@ =~= b@);
    }
    true
}

/// ASCII case folding of a whole string.
pub fn to_lower(s: &str) -> (r: String)
    ensures
        r@ == spec_lower(s@),
{
    let n = s.unicode_len();
    let mut out = String::new();
    let mut i: usize = 0;
    while i < n
        invariant
            i <= n,
            n == s@.len(),
            out@ == spec_lower(s@).take(i as int),
        decreases n - i,
    {
        let c = lower_char(s.get_char(i));
        push_char(&mut out, c);
        proof {
            assert(spec_lower(s@).take(i as int + 1) =~= spec_lower(s@).take(i as int).push(c));
        }
        i += 1;
    }
    proof {
        assert(spec_lower(s@).take(n as int) =~= spec_lower(s@));
    }
    out
}

/// Where `c` first occurs in `s`, if anywhere.
pub open spec fn spec_char_pos(s: Seq<char>, c: char) -> Option<int>
    decreases s.len(),
{
    if s.len() == 0 {
        None
    } else if s.first() == c {
        Some(0)
    } else {
        match spec_char_pos(s.drop_first(), c) {
            Some(j) => Some(1 + j),
            None => None,
        }
    }
}

/// `spec_char_pos` returns exactly the first matching index.
proof fn lemma_char_pos_first_match(s: Seq<char>, c: char, j: int)
    requires
        0 <= j < s.len(),
        s[j] == c,
        forall|k: int| 0 <= k < j ==> s[k] != c,
    ensures
        spec_char_pos(s, c) == Some(j),
    decreases s.len(),
{
    if j != 0 {
        lemma_char_pos_first_match(s.drop_first(), c, j - 1);
    }
}

/// `spec_char_pos` misses exactly when no character matches.
proof fn lemma_char_pos_no_match(s: Seq<char>, c: char)
    requires
        forall|k: int| 0 <= k < s.len() ==> s[k] != c,
    ensures
        spec_char_pos(s, c) is None,
    decreases s.len(),
{
    if s.len() > 0 {
        lemma_char_pos_no_match(s.drop_first(), c);
    }
}

/// Where `c` first occurs in `s`, if anywhere.
pub fn char_pos(s: &str, c: char) -> (r: Option<usize>)
    ensures
        match r {
            Some(i) => spec_char_pos(s@, c) == Some(i as int) && i < s@.len(),
            None => spec_char_pos(s@, c) is None,
        },
{
    let n = s.unicode_len();
    let mut i: usize = 0;
    while i < n
        invariant
            i <= n,
            n == s@.len(),
            forall|k: int| 0 <= k < i ==> s@[k] != c,
        decreases n - i,
    {
        if s.get_char(i) == c {
            proof {
                lemma_char_pos_first_match(s@, c, i as int);
            }
            return Some(i);
        }
        i += 1;
    }
    proof {
        lemma_char_pos_no_match(s@, c);
    }
    None
}

/// Whether `c` is a decimal digit.
pub open spec fn spec_is_digit(c: char) -> bool {
    '0' <= c && c <= '9'
}

/// The numeric value of a decimal digit character.
pub open spec fn spec_digit_val(c: char) -> int {
    (c as u8) - ('0' as u8)
}

/// Whether `s` is a non-empty run of decimal digits.
pub open spec fn spec_is_dec(s: Seq<char>) -> bool {
    s.len() > 0 && forall|i: int| 0 <= i < s.len() ==> spec_is_digit(s[i])
}

/// The number a run of decimal digits denotes.
pub open spec fn spec_dec_value(s: Seq<char>) -> int
    decreases s.len(),
{
    if s.len() == 0 {
        0
    } else {
        10 * spec_dec_value(s.drop_last()) + spec_digit_val(s.last())
    }
}

/// A run of digits denotes a number, never something negative.
proof fn lemma_dec_value_nonneg(s: Seq<char>)
    requires
        forall|k: int| 0 <= k < s.len() ==> spec_is_digit(s[k]),
    ensures
        spec_dec_value(s) >= 0,
    decreases s.len(),
{
    if s.len() > 0 {
        lemma_dec_value_nonneg(s.drop_last());
    }
}

/// A digit run's value never shrinks as digits are appended.
proof fn lemma_dec_value_extends(s: Seq<char>, i: int)
    requires
        0 <= i <= s.len(),
        forall|k: int| 0 <= k < s.len() ==> spec_is_digit(s[k]),
    ensures
        spec_dec_value(s) >= spec_dec_value(s.take(i)),
    decreases s.len() - i,
{
    if i == s.len() {
        assert(s.take(i) =~= s);
    } else {
        lemma_dec_value_extends(s, i + 1);
        assert(forall|k: int| 0 <= k < i ==> s.take(i)[k] == s[k]);
        lemma_dec_value_nonneg(s.take(i));
        assert(s.take(i + 1).drop_last() =~= s.take(i));
        assert(s.take(i + 1).last() == s[i]);
    }
}

/// The digits of a number written with an optional leading plus sign.
pub open spec fn spec_digits_of(s: Seq<char>) -> Seq<char> {
    if s.len() > 0 && s[0] == '+' {
        s.drop_first()
    } else {
        s
    }
}

/// Read a `u64` written as a non-empty run of decimal digits, with an
/// optional leading plus sign; anything else, or a value past `u64::MAX`, is
/// refused.
pub fn parse_u64(s: &str) -> (r: Option<u64>)
    ensures
        match r {
            Some(v) => spec_is_dec(spec_digits_of(s@)) && v as int == spec_dec_value(
                spec_digits_of(s@),
            ),
            None => !(spec_is_dec(spec_digits_of(s@)) && spec_dec_value(spec_digits_of(s@))
                <= u64::MAX as int),
        },
{
    let n = s.unicode_len();
    if n > 0 && s.get_char(0) == '+' {
        let digits = s.substring_char(1, n);
        proof {
            assert(digits@ =~= s@.drop_first());
        }
        parse_u64_digits(digits)
    } else {
        parse_u64_digits(s)
    }
}

/// Read a `u64` from a non-empty run of decimal digits alone.
fn parse_u64_digits(s: &str) -> (r: Option<u64>)
    ensures
        match r {
            Some(v) => spec_is_dec(s@) && v as int == spec_dec_value(s@),
            None => !(spec_is_dec(s@) && spec_dec_value(s@) <= u64::MAX as int),
        },
{
    let n = s.unicode_len();
    if n == 0 {
        return None;
    }
    let mut val: u64 = 0;
    let mut i: usize = 0;
    proof {
        assert(s@.take(0) =~= Seq::<char>::empty());
    }
    while i < n
        invariant
            i <= n,
            n == s@.len(),
            forall|k: int| 0 <= k < i ==> spec_is_digit(s@[k]),
            val as int == spec_dec_value(s@.take(i as int)),
        decreases n - i,
    {
        let c = s.get_char(i);
        if !('0' <= c && c <= '9') {
            return None;
        }
        let d = (c as u8) - ('0' as u8);
        proof {
            assert(s@.take(i as int + 1).drop_last() =~= s@.take(i as int));
            assert(s@.take(i as int + 1).last() == s@[i as int]);
        }
        if val > (u64::MAX - (d as u64)) / 10 {
            proof {
                assert(10 * (val as int) + d as int > u64::MAX as int) by (nonlinear_arith)
                    requires
                        val as int > (u64::MAX as int - d as int) / 10,
                        0 <= d as int <= 9,
                ;
                if spec_is_dec(s@) {
                    lemma_dec_value_extends(s@, i as int + 1);
                }
            }
            return None;
        }
        val = val * 10 + (d as u64);
        i += 1;
    }
    proof {
        assert(s@.take(n as int) =~= s@);
    }
    Some(val)
}

/// The decimal digit character for `d`.
pub open spec fn spec_digit_char(d: int) -> char {
    (('0' as u8) + d) as char
}

/// The decimal notation of `n`, most significant digit first.
pub open spec fn spec_u64_string(n: int) -> Seq<char>
    recommends
        n >= 0,
    decreases n,
{
    if n < 10 {
        seq![spec_digit_char(n)]
    } else {
        spec_u64_string(n / 10).push(spec_digit_char(n % 10))
    }
}

/// Relies on `String::push`: appends the given character to the end of the
/// string.
#[verifier::external_body]
fn push_char(s: &mut String, c: char)
    ensures
        final(s)@ == old(s)@.push(c),
{
    s.push(c)
}

/// Write `v` in decimal notation.
pub fn u64_to_string(v: u64) -> (r: String)
    ensures
        r@ == spec_u64_string(v as int),
{
    if v == 0 {
        let mut out = String::new();
        push_char(&mut out, '0');
        proof {
            assert(out@ =~= seq!['0']);
        }
        return out;
    }
    let mut rev: Vec<char> = Vec::new();
    let mut x = v;
    proof {
        assert(spec_u64_string(v as int) + rev@.reverse() =~= spec_u64_string(v as int));
    }
    while x > 0
        invariant
            x > 0 ==> spec_u64_string(v as int) == spec_u64_string(x as int) + rev@.reverse(),
            x == 0 ==> spec_u64_string(v as int) == rev@.reverse(),
            v > 0,
        decreases x,
    {
        let d = (x % 10) as u8;
        let c = (('0' as u8) + d) as char;
        let ghost rev_before = rev@;
        rev.push(c);
        x = x / 10;
        proof {
            assert(rev@.reverse() =~= seq![c] + rev_before.reverse());
            if x > 0 {
                assert(spec_u64_string(v as int) =~= spec_u64_string(x as int) + rev@.reverse());
            } else {
                assert(spec_u64_string(v as int) =~= rev@.reverse());
            }
        }
    }
    let mut out = String::new();
    let mut i = rev.len();
    while i > 0
        invariant
            i <= rev@.len(),
            out@ == rev@.skip(i as int).reverse(),
        decreases i,
    {
        i -= 1;
        push_char(&mut out, rev[i]);
        proof {
            assert(rev@.skip(i as int).reverse() =~= rev@.skip(i as int + 1).reverse().push(
                rev@[i as int],
            ));
        }
    }
    proof {
        assert(rev@.skip(0) =~= rev@);
        assert(spec_u64_string(v as int) =~= rev@.reverse());
    }
    out
}

} // verus!
