//! The JSON wire codec for domain events. The encoding is canonical —
//! externally tagged objects with the fields in declaration order — and is
//! defined by the spec functions here; the decoder accepts exactly what the
//! spec-level parser accepts, and the parser recovers every encoded event.
use vstd::prelude::*;
use crate::events::{DomainEvent, EventV, GameFields, GameFieldsV, GameChanges, GameChangesV};

verus! {

/// Relies on std's `String::push`: appends exactly one character.
#[verifier::external_body]
pub(crate) fn push_char(out: &mut String, c: char)
    ensures
        final(out)@ == old(out)@.push(c),
{
    out.push(c);
}

// ---------------------------------------------------------------------------
// Decimal numbers
// ---------------------------------------------------------------------------
pub open spec fn is_digit(c: char) -> bool {
    '0' <= c && c <= '9'
}

pub open spec fn digit_char(d: nat) -> char {
    if d == 0 {
        '0'
    } else if d == 1 {
        '1'
    } else if d == 2 {
        '2'
    } else if d == 3 {
        '3'
    } else if d == 4 {
        '4'
    } else if d == 5 {
        '5'
    } else if d == 6 {
        '6'
    } else if d == 7 {
        '7'
    } else if d == 8 {
        '8'
    } else {
        '9'
    }
}

pub open spec fn digit_val(c: char) -> nat {
    (c as u32 - '0' as u32) as nat
}

/// Decimal digits of `n`, most significant first, no leading zeros.
pub open spec fn enc_nat(n: nat) -> Seq<char>
    decreases n,
{
    if n < 10 {
        seq![digit_char(n)]
    } else {
        enc_nat(n / 10) + seq![digit_char(n % 10)]
    }
}

/// Value of a digit string (most significant first).
pub open spec fn val_digits(s: Seq<char>) -> nat
    decreases s.len(),
{
    if s.len() == 0 {
        0
    } else {
        val_digits(s.drop_last()) * 10 + digit_val(s.last())
    }
}

/// Length of the leading run of digits.
pub open spec fn digit_prefix_len(s: Seq<char>) -> int
    decreases s.len(),
{
    if s.len() > 0 && is_digit(s[0]) {
        1 + digit_prefix_len(s.skip(1))
    } else {
        0
    }
}

/// Greedy decimal parser: reads the leading digit run; fails when there is
/// none or when the value does not fit in a `u128`.
pub open spec fn dec_u128(s: Seq<char>) -> Option<(u128, Seq<char>)> {
    let k = digit_prefix_len(s);
    if k == 0 {
        None
    } else if val_digits(s.take(k)) <= u128::MAX {
        Some((val_digits(s.take(k)) as u128, s.skip(k)))
    } else {
        None
    }
}

proof fn lemma_digit_char_val(d: nat)
    requires
        d < 10,
    ensures
        is_digit(digit_char(d)),
        digit_val(digit_char(d)) == d,
{
}

proof fn lemma_enc_nat_digits(n: nat)
    ensures
        enc_nat(n).len() >= 1,
        forall|i: int| 0 <= i < enc_nat(n).len() ==> is_digit(#[trigger] enc_nat(n)[i]),
    decreases n,
{
    if n < 10 {
        lemma_digit_char_val(n);
    } else {
        lemma_enc_nat_digits(n / 10);
        lemma_digit_char_val(n % 10);
        assert forall|i: int| 0 <= i < enc_nat(n).len() implies is_digit(#[trigger] enc_nat(n)[i]) by {
            if i < enc_nat(n / 10).len() {
                assert(enc_nat(n)[i] == enc_nat(n / 10)[i]);
            } else {
                assert(enc_nat(n)[i] == digit_char(n % 10));
            }
        }
    }
}

proof fn lemma_dpl_concat(a: Seq<char>, rest: Seq<char>)
    requires
        forall|i: int| 0 <= i < a.len() ==> is_digit(#[trigger] a[i]),
        rest.len() == 0 || !is_digit(rest[0]),
    ensures
        digit_prefix_len(a + rest) == a.len(),
    decreases a.len(),
{
    if a.len() == 0 {
        assert(a + rest =~= rest);
    } else {
        assert((a + rest)[0] == a[0]);
        assert((a + rest).skip(1) =~= a.skip(1) + rest);
        lemma_dpl_concat(a.skip(1), rest);
    }
}

proof fn lemma_val_enc(n: nat)
    ensures
        val_digits(enc_nat(n)) == n,
    decreases n,
{
    if n < 10 {
        lemma_digit_char_val(n);
        assert(enc_nat(n).len() == 1);
        assert(enc_nat(n).last() == digit_char(n));
        assert(enc_nat(n).drop_last() =~= Seq::<char>::empty());
        assert(val_digits(Seq::<char>::empty()) == 0);
        assert(val_digits(enc_nat(n)) == val_digits(enc_nat(n).drop_last()) * 10 + digit_val(
            enc_nat(n).last(),
        ));
    } else {
        lemma_val_enc(n / 10);
        lemma_digit_char_val(n % 10);
        assert(enc_nat(n).drop_last() =~= enc_nat(n / 10));
        assert(enc_nat(n).last() == digit_char(n % 10));
    }
}

/// Completeness of the decimal parser on canonical encodings.
proof fn lemma_dec_enc_u128(n: u128, rest: Seq<char>)
    requires
        rest.len() == 0 || !is_digit(rest[0]),
    ensures
        dec_u128(enc_nat(n as nat) + rest) == Some((n, rest)),
{
    let a = enc_nat(n as nat);
    lemma_enc_nat_digits(n as nat);
    lemma_dpl_concat(a, rest);
    lemma_val_enc(n as nat);
    assert((a + rest).take(a.len() as int) =~= a);
    assert((a + rest).skip(a.len() as int) =~= rest);
}

/// Extending a digit prefix cannot shrink its value.
proof fn lemma_val_take_mono(s: Seq<char>, i: int, j: int)
    requires
        0 <= i <= j <= s.len(),
    ensures
        val_digits(s.take(i)) <= val_digits(s.take(j)),
    decreases j - i,
{
    if i < j {
        lemma_val_take_mono(s, i, j - 1);
        assert(s.take(j).drop_last() =~= s.take(j - 1));
        assert(val_digits(s.take(j)) == val_digits(s.take(j - 1)) * 10 + digit_val(s.take(j).last()));
    }
}

fn digit_of(d: u128) -> (c: char)
    requires
        d < 10,
    ensures
        c == digit_char(d as nat),
{
    if d == 0 {
        '0'
    } else if d == 1 {
        '1'
    } else if d == 2 {
        '2'
    } else if d == 3 {
        '3'
    } else if d == 4 {
        '4'
    } else if d == 5 {
        '5'
    } else if d == 6 {
        '6'
    } else if d == 7 {
        '7'
    } else if d == 8 {
        '8'
    } else {
        '9'
    }
}

fn is_digit_exec(c: char) -> (r: bool)
    ensures
        r == is_digit(c),
{
    '0' <= c && c <= '9'
}

/// Appends the decimal digits of `n`.
pub(crate) fn push_nat(out: &mut String, n: u128)
    ensures
        final(out)@ == old(out)@ + enc_nat(n as nat),
    decreases n,
{
    if n < 10 {
        push_char(out, digit_of(n));
    } else {
        push_nat(out, n / 10);
        push_char(out, digit_of(n % 10));
    }
}

/// Reads the decimal number starting at `pos`, exactly as `dec_u128` does on
/// the remaining input.
fn parse_u128(v: &Vec<char>, pos: usize) -> (r: Option<(u128, usize)>)
    requires
        pos <= v.len(),
    ensures
        match r {
            Some(p) => pos <= p.1 <= v.len() && dec_u128(v@.skip(pos as int)) == Some(
                (p.0, v@.skip(p.1 as int)),
            ),
            None => dec_u128(v@.skip(pos as int)) is None,
        },
{
    let ghost s = v@.skip(pos as int);
    let mut cur: usize = pos;
    let mut acc: u128 = 0;
    let mut overflow = false;
    while cur < v.len() && is_digit_exec(v[cur])
        invariant
            pos <= cur <= v.len(),
            s == v@.skip(pos as int),
            forall|t: int| 0 <= t < cur - pos ==> is_digit(#[trigger] s[t]),
            !overflow ==> acc as nat == val_digits(s.take(cur - pos)),
            overflow ==> val_digits(s.take(cur - pos)) > u128::MAX,
        decreases v.len() - cur,
    {
        let c = v[cur];
        let d = (c as u32 - 48) as u128;
        proof {
            assert(s[cur - pos] == v@[cur as int]);
            assert(s.take(cur + 1 - pos).drop_last() =~= s.take(cur - pos));
            assert(s.take(cur + 1 - pos).last() == s[cur - pos]);
        }
        if !overflow {
            match acc.checked_mul(10) {
                Some(m) => {
                    match m.checked_add(d) {
                        Some(a2) => {
                            acc = a2;
                        },
                        None => {
                            overflow = true;
                        },
                    }
                },
                None => {
                    overflow = true;
                },
            }
        } else {
            proof {
                lemma_val_take_mono(s, cur - pos, cur + 1 - pos);
            }
        }
        cur = cur + 1;
    }
    proof {
        let k = cur - pos;
        assert(s =~= s.take(k) + s.skip(k));
        if cur < v.len() {
            assert(s.skip(k)[0] == v@[cur as int]);
        }
        lemma_dpl_concat(s.take(k), s.skip(k));
        assert(digit_prefix_len(s) == k);
    }
    if cur == pos {
        return None;
    }
    if overflow {
        return None;
    }
    proof {
        assert(s.take(cur - pos) =~= s.take(digit_prefix_len(s)));
        assert(v@.skip(cur as int) =~= s.skip(cur - pos));
    }
    Some((acc, cur))
}

// ---------------------------------------------------------------------------
// Signed numbers (timestamps, ratings)
// ---------------------------------------------------------------------------
/// Decimal digits with a leading minus sign for negative values.
pub open spec fn enc_int(v: int) -> Seq<char> {
    if v < 0 {
        seq!['-'] + enc_nat((-v) as nat)
    } else {
        enc_nat(v as nat)
    }
}

/// Parser for an `i64`: optional minus sign, then digits, value within the
/// `i64` range.
pub open spec fn dec_i64(s: Seq<char>) -> Option<(i64, Seq<char>)> {
    if s.len() > 0 && s[0] == '-' {
        match dec_u128(s.skip(1)) {
            Some(p) => {
                if p.0 <= 0x8000_0000_0000_0000u128 && p.0 > 0 {
                    Some(((-(p.0 as int)) as i64, p.1))
                } else {
                    None
                }
            },
            None => None,
        }
    } else {
        match dec_u128(s) {
            Some(p) => {
                if p.0 <= 0x7fff_ffff_ffff_ffffu128 {
                    Some((p.0 as i64, p.1))
                } else {
                    None
                }
            },
            None => None,
        }
    }
}

/// Completeness of the signed parser on canonical encodings. The decoder
/// never sees `-0`, which the encoder cannot produce.
proof fn lemma_dec_enc_i64(n: i64, rest: Seq<char>)
    requires
        rest.len() == 0 || !is_digit(rest[0]),
    ensures
        dec_i64(enc_int(n as int) + rest) == Some((n, rest)),
{
    if n < 0 {
        let m = (-(n as int)) as u128;
        lemma_dec_enc_u128(m, rest);
        assert((seq!['-'] + enc_nat(m as nat) + rest)[0] == '-');
        assert((seq!['-'] + enc_nat(m as nat) + rest).skip(1) =~= enc_nat(m as nat) + rest);
        assert(enc_int(n as int) + rest =~= seq!['-'] + enc_nat(m as nat) + rest);
    } else {
        lemma_dec_enc_u128(n as u128, rest);
        lemma_enc_nat_digits(n as nat);
        assert((enc_nat(n as nat) + rest)[0] == enc_nat(n as nat)[0]);
        assert(!((enc_nat(n as nat) + rest)[0] == '-'));
    }
}

fn push_i64(out: &mut String, n: i64)
    ensures
        final(out)@ == old(out)@ + enc_int(n as int),
{
    if n < 0 {
        push_char(out, '-');
        let mag = ((-(n as i128)) as u128);
        assert(mag as nat == (-(n as int)) as nat);
        push_nat(out, mag);
        assert(final(out)@ =~= old(out)@ + enc_int(n as int));
    } else {
        push_nat(out, n as u128);
    }
}

fn parse_i64(v: &Vec<char>, pos: usize) -> (r: Option<(i64, usize)>)
    requires
        pos <= v.len(),
    ensures
        match r {
            Some(p) => pos <= p.1 <= v.len() && dec_i64(v@.skip(pos as int)) == Some(
                (p.0, v@.skip(p.1 as int)),
            ),
            None => dec_i64(v@.skip(pos as int)) is None,
        },
{
    if pos < v.len() && v[pos] == '-' {
        proof {
            assert(v@.skip(pos as int)[0] == '-');
            assert(v@.skip(pos as int).skip(1) =~= v@.skip(pos as int + 1));
        }
        match parse_u128(v, pos + 1) {
            Some((m, p2)) => {
                if 0 < m && m <= 0x8000_0000_0000_0000u128 {
                    Some(((-(m as i128)) as i64, p2))
                } else {
                    None
                }
            },
            None => None,
        }
    } else {
        proof {
            if pos < v.len() {
                assert(v@.skip(pos as int)[0] == v@[pos as int]);
            }
        }
        match parse_u128(v, pos) {
            Some((m, p2)) => {
                if m <= 0x7fff_ffff_ffff_ffffu128 {
                    Some((m as i64, p2))
                } else {
                    None
                }
            },
            None => None,
        }
    }
}

// ---------------------------------------------------------------------------
// Strings: quote-delimited with `"` and `\` escaped
// ---------------------------------------------------------------------------
pub open spec fn esc_char(c: char) -> Seq<char> {
    if c == '"' {
        seq!['\\', '"']
    } else if c == '\\' {
        seq!['\\', '\\']
    } else {
        seq![c]
    }
}

pub open spec fn esc(s: Seq<char>) -> Seq<char>
    decreases s.len(),
{
    if s.len() == 0 {
        Seq::empty()
    } else {
        esc_char(s[0]) + esc(s.skip(1))
    }
}

/// A string value on the wire: quoted, with the escapes applied.
pub open spec fn enc_str(s: Seq<char>) -> Seq<char> {
    seq!['"'] + esc(s) + seq!['"']
}

/// Parses a string body up to the closing quote, undoing the escapes.
pub open spec fn dec_str_body(s: Seq<char>) -> Option<(Seq<char>, Seq<char>)>
    decreases s.len(),
{
    if s.len() == 0 {
        None
    } else if s[0] == '"' {
        Some((Seq::empty(), s.skip(1)))
    } else if s[0] == '\\' {
        if s.len() >= 2 && (s[1] == '"' || s[1] == '\\') {
            match dec_str_body(s.skip(2)) {
                Some(p) => Some((seq![s[1]] + p.0, p.1)),
                None => None,
            }
        } else {
            None
        }
    } else {
        match dec_str_body(s.skip(1)) {
            Some(p) => Some((seq![s[0]] + p.0, p.1)),
            None => None,
        }
    }
}

pub open spec fn dec_str(s: Seq<char>) -> Option<(Seq<char>, Seq<char>)> {
    if s.len() > 0 && s[0] == '"' {
        dec_str_body(s.skip(1))
    } else {
        None
    }
}

proof fn lemma_esc_append(a: Seq<char>, b: Seq<char>)
    ensures
        esc(a + b) == esc(a) + esc(b),
    decreases a.len(),
{
    if a.len() == 0 {
        assert(a + b =~= b);
        assert(esc(a) + esc(b) =~= esc(b));
    } else {
        assert((a + b)[0] == a[0]);
        assert((a + b).skip(1) =~= a.skip(1) + b);
        lemma_esc_append(a.skip(1), b);
        assert(esc(a + b) =~= esc(a) + esc(b));
    }
}

/// Completeness of the string-body parser on escaped text.
proof fn lemma_dec_enc_str_body(v: Seq<char>, rest: Seq<char>)
    ensures
        dec_str_body(esc(v) + seq!['"'] + rest) == Some((v, rest)),
    decreases v.len(),
{
    let s = esc(v) + seq!['"'] + rest;
    if v.len() == 0 {
        assert(esc(v) =~= Seq::<char>::empty());
        assert(s =~= seq!['"'] + rest);
        assert(s[0] == '"');
        assert(s.skip(1) =~= rest);
    } else {
        let c = v[0];
        lemma_dec_enc_str_body(v.skip(1), rest);
        if c == '"' || c == '\\' {
            assert(s[0] == '\\');
            assert(s[1] == c);
            assert(s.skip(2) =~= esc(v.skip(1)) + seq!['"'] + rest);
            assert(seq![c] + v.skip(1) =~= v);
        } else {
            assert(s[0] == c);
            assert(s.skip(1) =~= esc(v.skip(1)) + seq!['"'] + rest);
            assert(seq![c] + v.skip(1) =~= v);
        }
    }
}

/// Appends the escaped form of `s`.
fn push_escaped(out: &mut String, s: &str)
    ensures
        final(out)@ == old(out)@ + esc(s@),
{
    let n = s.unicode_len();
    let mut i: usize = 0;
    while i < n
        invariant
            n == s@.len(),
            0 <= i <= n,
            out@ == old(out)@ + esc(s@.take(i as int)),
        decreases n - i,
    {
        let c = s.get_char(i);
        if c == '"' || c == '\\' {
            push_char(out, '\\');
            push_char(out, c);
        } else {
            push_char(out, c);
        }
        proof {
            assert(s@.take(i + 1) =~= s@.take(i as int) + seq![s@[i as int]]);
            lemma_esc_append(s@.take(i as int), seq![s@[i as int]]);
            assert(seq![s@[i as int]].skip(1) =~= Seq::<char>::empty());
            assert(esc(seq![s@[i as int]]) =~= esc_char(s@[i as int]) + esc(
                Seq::<char>::empty(),
            ));
            assert(esc(seq![s@[i as int]]) =~= esc_char(s@[i as int]));
            assert(out@ =~= old(out)@ + esc(s@.take(i + 1)));
        }
        i = i + 1;
    }
    proof {
        assert(s@.take(n as int) =~= s@);
    }
}

/// Appends the wire form of a string value.
fn push_str_enc(out: &mut String, s: &str)
    ensures
        final(out)@ == old(out)@ + enc_str(s@),
{
    push_char(out, '"');
    push_escaped(out, s);
    push_char(out, '"');
    proof {
        assert(final(out)@ =~= old(out)@ + enc_str(s@));
    }
}

/// Reads a string body (after the opening quote) starting at `pos`, exactly
/// as `dec_str_body` does on the remaining input.
fn parse_str_body(v: &Vec<char>, pos: usize) -> (r: Option<(String, usize)>)
    requires
        pos <= v.len(),
    ensures
        match r {
            Some(p) => pos <= p.1 <= v.len() && dec_str_body(v@.skip(pos as int)) == Some(
                (p.0@, v@.skip(p.1 as int)),
            ),
            None => dec_str_body(v@.skip(pos as int)) is None,
        },
    decreases v.len() - pos,
{
    let ghost s = v@.skip(pos as int);
    if pos == v.len() {
        return None;
    }
    let c = v[pos];
    proof {
        assert(s[0] == v@[pos as int]);
        assert(s.skip(1) =~= v@.skip(pos as int + 1));
    }
    if c == '"' {
        let mut empty = String::new();
        return Some((empty, pos + 1));
    }
    if c == '\\' {
        if pos + 1 == v.len() {
            return None;
        }
        let e = v[pos + 1];
        proof {
            assert(s[1] == v@[pos as int + 1]);
            assert(s.skip(2) =~= v@.skip(pos as int + 2));
        }
        if e == '"' || e == '\\' {
            match parse_str_body(v, pos + 2) {
                Some((tail, p2)) => {
                    let mut head = String::new();
                    push_char(&mut head, e);
                    let joined = head.concat(tail.as_str());
                    proof {
                        assert(joined@ =~= seq![s[1]] + tail@);
                    }
                    return Some((joined, p2));
                },
                None => {
                    return None;
                },
            }
        }
        return None;
    }
    match parse_str_body(v, pos + 1) {
        Some((tail, p2)) => {
            let mut head = String::new();
            push_char(&mut head, c);
            let joined = head.concat(tail.as_str());
            proof {
                assert(joined@ =~= seq![s[0]] + tail@);
            }
            Some((joined, p2))
        },
        None => None,
    }
}

/// Reads a full string value (with its opening quote) starting at `pos`.
fn parse_string(v: &Vec<char>, pos: usize) -> (r: Option<(String, usize)>)
    requires
        pos <= v.len(),
    ensures
        match r {
            Some(p) => pos <= p.1 <= v.len() && dec_str(v@.skip(pos as int)) == Some(
                (p.0@, v@.skip(p.1 as int)),
            ),
            None => dec_str(v@.skip(pos as int)) is None,
        },
{
    if pos < v.len() && v[pos] == '"' {
        proof {
            assert(v@.skip(pos as int)[0] == '"');
            assert(v@.skip(pos as int).skip(1) =~= v@.skip(pos as int + 1));
        }
        parse_str_body(v, pos + 1)
    } else {
        proof {
            if pos < v.len() {
                assert(v@.skip(pos as int)[0] == v@[pos as int]);
            }
        }
        None
    }
}

// ---------------------------------------------------------------------------
// Fixed literal fragments (braces, keys, null, the variant tags)
// ---------------------------------------------------------------------------
pub open spec fn strip(s: Seq<char>, lit: Seq<char>) -> Option<Seq<char>> {
    if lit.len() <= s.len() && s.take(lit.len() as int) == lit {
        Some(s.skip(lit.len() as int))
    } else {
        None
    }
}

pub(crate) proof fn lemma_strip_pub(lit: Seq<char>, rest: Seq<char>)
    ensures
        strip(lit + rest, lit) == Some(rest),
{
    assert((lit + rest).take(lit.len() as int) =~= lit);
    assert((lit + rest).skip(lit.len() as int) =~= rest);
}

/// Consumes the exact literal `lit` at `pos`, exactly as `strip` does.
pub(crate) fn expect(v: &Vec<char>, pos: usize, lit: &str) -> (r: Option<usize>)
    requires
        pos <= v.len(),
    ensures
        match r {
            Some(p2) => pos <= p2 <= v.len() && strip(v@.skip(pos as int), lit@) == Some(
                v@.skip(p2 as int),
            ),
            None => strip(v@.skip(pos as int), lit@) is None,
        },
{
    let ghost s = v@.skip(pos as int);
    let n = lit.unicode_len();
    if v.len() - pos < n {
        return None;
    }
    let mut i: usize = 0;
    while i < n
        invariant
            pos <= v.len(),
            n == lit@.len(),
            n <= v.len() - pos,
            s == v@.skip(pos as int),
            0 <= i <= n,
            forall|t: int| 0 <= t < i ==> s[t] == lit@[t],
        decreases n - i,
    {
        let c = v[pos + i];
        let l = lit.get_char(i);
        proof {
            assert(s[i as int] == v@[pos + i]);
        }
        if c != l {
            proof {
                if s.take(n as int) == lit@ {
                    assert(s.take(n as int)[i as int] == lit@[i as int]);
                }
            }
            return None;
        }
        i = i + 1;
    }
    proof {
        assert(s.take(n as int) =~= lit@);
        assert(v@.skip(pos + n) =~= s.skip(n as int));
    }
    Some(pos + n)
}

// ---------------------------------------------------------------------------
// Optional values: `null` or the value itself
// ---------------------------------------------------------------------------
pub open spec fn enc_opt_str(v: Option<Seq<char>>) -> Seq<char> {
    match v {
        Some(s) => enc_str(s),
        None => "null"@,
    }
}

pub open spec fn dec_opt_str(s: Seq<char>) -> Option<(Option<Seq<char>>, Seq<char>)> {
    if s.len() > 0 && s[0] == '"' {
        match dec_str(s) {
            Some(p) => Some((Some(p.0), p.1)),
            None => None,
        }
    } else {
        match strip(s, "null"@) {
            Some(r) => Some((None, r)),
            None => None,
        }
    }
}

pub open spec fn enc_opt_u128(v: Option<u128>) -> Seq<char> {
    match v {
        Some(n) => enc_nat(n as nat),
        None => "null"@,
    }
}

pub open spec fn dec_opt_u128(s: Seq<char>) -> Option<(Option<u128>, Seq<char>)> {
    if s.len() > 0 && is_digit(s[0]) {
        match dec_u128(s) {
            Some(p) => Some((Some(p.0), p.1)),
            None => None,
        }
    } else {
        match strip(s, "null"@) {
            Some(r) => Some((None, r)),
            None => None,
        }
    }
}

pub open spec fn enc_opt_i64(v: Option<i64>) -> Seq<char> {
    match v {
        Some(n) => enc_int(n as int),
        None => "null"@,
    }
}

pub open spec fn dec_opt_i64(s: Seq<char>) -> Option<(Option<i64>, Seq<char>)> {
    if s.len() > 0 && (is_digit(s[0]) || s[0] == '-') {
        match dec_i64(s) {
            Some(p) => Some((Some(p.0), p.1)),
            None => None,
        }
    } else {
        match strip(s, "null"@) {
            Some(r) => Some((None, r)),
            None => None,
        }
    }
}

pub open spec fn dec_i32(s: Seq<char>) -> Option<(i32, Seq<char>)> {
    match dec_i64(s) {
        Some(p) => {
            if i32::MIN <= p.0 <= i32::MAX {
                Some((p.0 as i32, p.1))
            } else {
                None
            }
        },
        None => None,
    }
}

// ---------------------------------------------------------------------------
// Events: externally tagged objects in canonical field order
// ---------------------------------------------------------------------------
pub open spec fn tag_of(e: EventV) -> Seq<char> {
    match e {
        EventV::UserRegistered { .. } => "UserRegistered"@,
        EventV::UserLoggedIn { .. } => "UserLoggedIn"@,
        EventV::UserLoggedOut { .. } => "UserLoggedOut"@,
        EventV::UserUpdated { .. } => "UserUpdated"@,
        EventV::UserDeleted { .. } => "UserDeleted"@,
        EventV::GameCreated(_) => "GameCreated"@,
        EventV::GameUpdated { .. } => "GameUpdated"@,
        EventV::GameDeleted { .. } => "GameDeleted"@,
        EventV::RatingSubmitted { .. } => "RatingSubmitted"@,
    }
}

pub open spec fn gc_head(g: GameFieldsV) -> Seq<char> {
    "{\"slug\":"@ + (enc_str(g.slug) + (",\"name\":"@ + (enc_str(g.name) + (",\"title\":"@
        + enc_opt_str(g.title)))))
}

pub open spec fn gc_tail(g: GameFieldsV) -> Seq<char> {
    ",\"description\":"@ + (enc_opt_str(g.description) + (",\"genre\":"@ + (enc_opt_str(g.genre)
        + (",\"created_by\":"@ + (enc_opt_u128(g.created_by) + (",\"created_at\":"@ + (
    enc_opt_i64(g.created_at) + "}}"@)))))))
}

pub open spec fn enc_body(e: EventV) -> Seq<char> {
    match e {
        EventV::UserRegistered { id, username, email, created_at } => "{\"id\":"@ + enc_nat(
            id as nat,
        ) + ",\"username\":"@ + enc_str(username) + ",\"email\":"@ + enc_str(email)
            + ",\"created_at\":"@ + enc_opt_i64(created_at) + "}}"@,
        EventV::UserLoggedIn { user_id, time } => "{\"user_id\":"@ + enc_nat(user_id as nat)
            + ",\"time\":"@ + enc_int(time as int) + "}}"@,
        EventV::UserLoggedOut { user_id, time } => "{\"user_id\":"@ + enc_nat(user_id as nat)
            + ",\"time\":"@ + enc_int(time as int) + "}}"@,
        EventV::UserUpdated { id, username, email } => "{\"id\":"@ + enc_nat(id as nat)
            + ",\"username\":"@ + enc_str(username) + ",\"email\":"@ + enc_str(email) + "}}"@,
        EventV::UserDeleted { id } => "{\"id\":"@ + enc_nat(id as nat) + "}}"@,
        EventV::GameCreated(g) => gc_head(g) + gc_tail(g),
        EventV::GameUpdated { slug, changes } => "{\"slug\":"@ + (enc_str(slug) + (",\"changes\":"@
            + ("{\"title\":"@ + (enc_opt_str(changes.title) + (",\"description\":"@ + (
        enc_opt_str(changes.description) + (",\"genre\":"@ + (enc_opt_str(changes.genre) + ("}"@
            + "}}"@))))))))),
        EventV::GameDeleted { slug } => "{\"slug\":"@ + enc_str(slug) + "}}"@,
        EventV::RatingSubmitted { game_slug, user_id, rating, review } => "{\"game_slug\":"@
            + enc_str(game_slug) + ",\"user_id\":"@ + enc_nat(user_id as nat) + ",\"rating\":"@
            + enc_int(rating as int) + ",\"review\":"@ + enc_opt_str(review) + "}}"@,
    }
}

/// The canonical wire text of an event.
pub open spec fn enc_event(e: EventV) -> Seq<char> {
    "{"@ + enc_str(tag_of(e)) + ":"@ + enc_body(e)
}

pub(crate) fn new_string() -> (r: String)
    ensures
        r@ == Seq::<char>::empty(),
{
    let r = String::from_str("");
    proof {
        reveal_strlit("");
        assert(r@ =~= Seq::<char>::empty());
    }
    r
}

fn push_opt_str(out: &mut String, v: &Option<String>)
    ensures
        final(out)@ == old(out)@ + enc_opt_str(v.deep_view()),
{
    match v {
        Some(s) => push_str_enc(out, s.as_str()),
        None => out.append("null"),
    }
}

fn push_opt_u128(out: &mut String, v: &Option<u128>)
    ensures
        final(out)@ == old(out)@ + enc_opt_u128(*v),
{
    match v {
        Some(n) => push_nat(out, *n),
        None => out.append("null"),
    }
}

fn push_opt_i64(out: &mut String, v: &Option<i64>)
    ensures
        final(out)@ == old(out)@ + enc_opt_i64(*v),
{
    match v {
        Some(n) => push_i64(out, *n),
        None => out.append("null"),
    }
}

fn push_body_user_registered(
    out: &mut String,
    id: u128,
    username: &String,
    email: &String,
    created_at: &Option<i64>,
)
    ensures
        final(out)@ == old(out)@ + enc_body(
            (EventV::UserRegistered {
                id,
                username: username@,
                email: email@,
                created_at: *created_at,
            }),
        ),
{
    out.append("{\"id\":");
    push_nat(out, id);
    out.append(",\"username\":");
    push_str_enc(out, username.as_str());
    out.append(",\"email\":");
    push_str_enc(out, email.as_str());
    out.append(",\"created_at\":");
    push_opt_i64(out, created_at);
    out.append("}}");
    proof {
        assert(final(out)@ =~= old(out)@ + enc_body(
            (EventV::UserRegistered {
                id,
                username: username@,
                email: email@,
                created_at: *created_at,
            }),
        ));
    }
}

fn push_body_session(out: &mut String, user_id: u128, time: i64, is_login: bool)
    ensures
        is_login ==> final(out)@ == old(out)@ + enc_body(
            (EventV::UserLoggedIn { user_id, time }),
        ),
        !is_login ==> final(out)@ == old(out)@ + enc_body(
            (EventV::UserLoggedOut { user_id, time }),
        ),
{
    out.append("{\"user_id\":");
    push_nat(out, user_id);
    out.append(",\"time\":");
    push_i64(out, time);
    out.append("}}");
    proof {
        assert(final(out)@ =~= old(out)@ + enc_body((EventV::UserLoggedIn { user_id, time })));
        assert(final(out)@ =~= old(out)@ + enc_body((EventV::UserLoggedOut { user_id, time })));
    }
}

fn push_body_user_updated(out: &mut String, id: u128, username: &String, email: &String)
    ensures
        final(out)@ == old(out)@ + enc_body(
            (EventV::UserUpdated { id, username: username@, email: email@ }),
        ),
{
    out.append("{\"id\":");
    push_nat(out, id);
    out.append(",\"username\":");
    push_str_enc(out, username.as_str());
    out.append(",\"email\":");
    push_str_enc(out, email.as_str());
    out.append("}}");
    proof {
        assert(final(out)@ =~= old(out)@ + enc_body(
            (EventV::UserUpdated { id, username: username@, email: email@ }),
        ));
    }
}

fn push_body_user_deleted(out: &mut String, id: u128)
    ensures
        final(out)@ == old(out)@ + enc_body((EventV::UserDeleted { id })),
{
    out.append("{\"id\":");
    push_nat(out, id);
    out.append("}}");
    proof {
        assert(final(out)@ =~= old(out)@ + enc_body((EventV::UserDeleted { id })));
    }
}

fn push_gc_head(out: &mut String, g: &GameFields)
    ensures
        final(out)@ == old(out)@ + gc_head(g@),
{
    out.append("{\"slug\":");
    push_str_enc(out, g.slug.as_str());
    out.append(",\"name\":");
    push_str_enc(out, g.name.as_str());
    out.append(",\"title\":");
    push_opt_str(out, &g.title);
    proof {
        assert(final(out)@ =~= old(out)@ + gc_head(g@));
    }
}

fn push_gc_tail(out: &mut String, g: &GameFields)
    ensures
        final(out)@ == old(out)@ + gc_tail(g@),
{
    out.append(",\"description\":");
    push_opt_str(out, &g.description);
    out.append(",\"genre\":");
    push_opt_str(out, &g.genre);
    out.append(",\"created_by\":");
    push_opt_u128(out, &g.created_by);
    out.append(",\"created_at\":");
    push_opt_i64(out, &g.created_at);
    out.append("}}");
    proof {
        assert(final(out)@ =~= old(out)@ + gc_tail(g@));
    }
}

fn push_body_game_created(out: &mut String, g: &GameFields)
    ensures
        final(out)@ == old(out)@ + enc_body(EventV::GameCreated(g@)),
{
    push_gc_head(out, g);
    push_gc_tail(out, g);
    proof {
        assert(final(out)@ =~= old(out)@ + enc_body(EventV::GameCreated(g@)));
    }
}

fn push_body_game_updated(out: &mut String, slug: &String, changes: &GameChanges)
    ensures
        final(out)@ == old(out)@ + enc_body((EventV::GameUpdated { slug: slug@, changes: changes@ })),
{
    out.append("{\"slug\":");
    push_str_enc(out, slug.as_str());
    out.append(",\"changes\":");
    out.append("{\"title\":");
    push_opt_str(out, &changes.title);
    out.append(",\"description\":");
    push_opt_str(out, &changes.description);
    out.append(",\"genre\":");
    push_opt_str(out, &changes.genre);
    out.append("}");
    out.append("}}");
    proof {
        assert(final(out)@ =~= old(out)@ + enc_body(
            (EventV::GameUpdated { slug: slug@, changes: changes@ }),
        ));
    }
}

fn push_body_game_deleted(out: &mut String, slug: &String)
    ensures
        final(out)@ == old(out)@ + enc_body((EventV::GameDeleted { slug: slug@ })),
{
    out.append("{\"slug\":");
    push_str_enc(out, slug.as_str());
    out.append("}}");
    proof {
        assert(final(out)@ =~= old(out)@ + enc_body((EventV::GameDeleted { slug: slug@ })));
    }
}

fn push_body_rating_submitted(
    out: &mut String,
    game_slug: &String,
    user_id: u128,
    rating: i32,
    review: &Option<String>,
)
    ensures
        final(out)@ == old(out)@ + enc_body(
            (EventV::RatingSubmitted {
                game_slug: game_slug@,
                user_id,
                rating,
                review: review.deep_view(),
            }),
        ),
{
    out.append("{\"game_slug\":");
    push_str_enc(out, game_slug.as_str());
    out.append(",\"user_id\":");
    push_nat(out, user_id);
    out.append(",\"rating\":");
    push_i64(out, rating as i64);
    out.append(",\"review\":");
    push_opt_str(out, review);
    out.append("}}");
    proof {
        assert(final(out)@ =~= old(out)@ + enc_body(
            (EventV::RatingSubmitted {
                game_slug: game_slug@,
                user_id,
                rating,
                review: review.deep_view(),
            }),
        ));
    }
}

/// Serializes an event into its canonical wire text.
pub fn encode_event(e: &DomainEvent) -> (r: String)
    ensures
        r@ == enc_event(e@),
{
    let mut out = new_string();
    out.append("{");
    match e {
        DomainEvent::UserRegistered { .. } => push_str_enc(&mut out, "UserRegistered"),
        DomainEvent::UserLoggedIn { .. } => push_str_enc(&mut out, "UserLoggedIn"),
        DomainEvent::UserLoggedOut { .. } => push_str_enc(&mut out, "UserLoggedOut"),
        DomainEvent::UserUpdated { .. } => push_str_enc(&mut out, "UserUpdated"),
        DomainEvent::UserDeleted { .. } => push_str_enc(&mut out, "UserDeleted"),
        DomainEvent::GameCreated(_) => push_str_enc(&mut out, "GameCreated"),
        DomainEvent::GameUpdated { .. } => push_str_enc(&mut out, "GameUpdated"),
        DomainEvent::GameDeleted { .. } => push_str_enc(&mut out, "GameDeleted"),
        DomainEvent::RatingSubmitted { .. } => push_str_enc(&mut out, "RatingSubmitted"),
    }
    out.append(":");
    proof {
        assert(out@ =~= "{"@ + enc_str(tag_of(e@)) + ":"@);
    }
    match e {
        DomainEvent::UserRegistered { id, username, email, created_at } => {
            push_body_user_registered(&mut out, *id, username, email, created_at);
        },
        DomainEvent::UserLoggedIn { user_id, time } => {
            push_body_session(&mut out, *user_id, *time, true);
        },
        DomainEvent::UserLoggedOut { user_id, time } => {
            push_body_session(&mut out, *user_id, *time, false);
        },
        DomainEvent::UserUpdated { id, username, email } => {
            push_body_user_updated(&mut out, *id, username, email);
        },
        DomainEvent::UserDeleted { id } => {
            push_body_user_deleted(&mut out, *id);
        },
        DomainEvent::GameCreated(g) => {
            push_body_game_created(&mut out, g);
        },
        DomainEvent::GameUpdated { slug, changes } => {
            push_body_game_updated(&mut out, slug, changes);
        },
        DomainEvent::GameDeleted { slug } => {
            push_body_game_deleted(&mut out, slug);
        },
        DomainEvent::RatingSubmitted { game_slug, user_id, rating, review } => {
            push_body_rating_submitted(&mut out, game_slug, *user_id, *rating, review);
        },
    }
    proof {
        assert(out@ =~= enc_event(e@));
    }
    out
}

// ---------------------------------------------------------------------------
// The spec-level parser
// ---------------------------------------------------------------------------
pub open spec fn dec_body_user_registered(s: Seq<char>) -> Option<EventV> {
    match strip(s, "{\"id\":"@) {
        None => None,
        Some(s1) => match dec_u128(s1) {
            None => None,
            Some((id, s2)) => match strip(s2, ",\"username\":"@) {
                None => None,
                Some(s3) => match dec_str(s3) {
                    None => None,
                    Some((username, s4)) => match strip(s4, ",\"email\":"@) {
                        None => None,
                        Some(s5) => match dec_str(s5) {
                            None => None,
                            Some((email, s6)) => match strip(s6, ",\"created_at\":"@) {
                                None => None,
                                Some(s7) => match dec_opt_i64(s7) {
                                    None => None,
                                    Some((created_at, s8)) => if s8 == "}}"@ {
                                        Some(
                                            EventV::UserRegistered {
                                                id,
                                                username,
                                                email,
                                                created_at,
                                            },
                                        )
                                    } else {
                                        None
                                    },
                                },
                            },
                        },
                    },
                },
            },
        },
    }
}

pub open spec fn dec_body_session(s: Seq<char>, is_login: bool) -> Option<EventV> {
    match strip(s, "{\"user_id\":"@) {
        None => None,
        Some(s1) => match dec_u128(s1) {
            None => None,
            Some((user_id, s2)) => match strip(s2, ",\"time\":"@) {
                None => None,
                Some(s3) => match dec_i64(s3) {
                    None => None,
                    Some((time, s4)) => if s4 == "}}"@ {
                        if is_login {
                            Some(EventV::UserLoggedIn { user_id, time })
                        } else {
                            Some(EventV::UserLoggedOut { user_id, time })
                        }
                    } else {
                        None
                    },
                },
            },
        },
    }
}

pub open spec fn dec_body_user_updated(s: Seq<char>) -> Option<EventV> {
    match strip(s, "{\"id\":"@) {
        None => None,
        Some(s1) => match dec_u128(s1) {
            None => None,
            Some((id, s2)) => match strip(s2, ",\"username\":"@) {
                None => None,
                Some(s3) => match dec_str(s3) {
                    None => None,
                    Some((username, s4)) => match strip(s4, ",\"email\":"@) {
                        None => None,
                        Some(s5) => match dec_str(s5) {
                            None => None,
                            Some((email, s6)) => if s6 == "}}"@ {
                                Some(EventV::UserUpdated { id, username, email })
                            } else {
                                None
                            },
                        },
                    },
                },
            },
        },
    }
}

pub open spec fn dec_body_user_deleted(s: Seq<char>) -> Option<EventV> {
    match strip(s, "{\"id\":"@) {
        None => None,
        Some(s1) => match dec_u128(s1) {
            None => None,
            Some((id, s2)) => if s2 == "}}"@ {
                Some(EventV::UserDeleted { id })
            } else {
                None
            },
        },
    }
}

pub open spec fn dec_body_game_created(s: Seq<char>) -> Option<EventV> {
    match strip(s, "{\"slug\":"@) {
        None => None,
        Some(s1) => match dec_str(s1) {
            None => None,
            Some((slug, s2)) => match strip(s2, ",\"name\":"@) {
                None => None,
                Some(s3) => match dec_str(s3) {
                    None => None,
                    Some((name, s4)) => match strip(s4, ",\"title\":"@) {
                        None => None,
                        Some(s5) => match dec_opt_str(s5) {
                            None => None,
                            Some((title, s6)) => match strip(s6, ",\"description\":"@) {
                                None => None,
                                Some(s7) => match dec_opt_str(s7) {
                                    None => None,
                                    Some((description, s8)) => match strip(s8, ",\"genre\":"@) {
                                        None => None,
                                        Some(s9) => match dec_opt_str(s9) {
                                            None => None,
                                            Some((genre, s10)) => match strip(
                                                s10,
                                                ",\"created_by\":"@,
                                            ) {
                                                None => None,
                                                Some(s11) => match dec_opt_u128(s11) {
                                                    None => None,
                                                    Some((created_by, s12)) => match strip(
                                                        s12,
                                                        ",\"created_at\":"@,
                                                    ) {
                                                        None => None,
                                                        Some(s13) => match dec_opt_i64(s13) {
                                                            None => None,
                                                            Some((created_at, s14)) => if s14
                                                                == "}}"@ {
                                                                Some(
                                                                    EventV::GameCreated(
                                                                        GameFieldsV {
                                                                            slug,
                                                                            name,
                                                                            title,
                                                                            description,
                                                                            genre,
                                                                            created_by,
                                                                            created_at,
                                                                        },
                                                                    ),
                                                                )
                                                            } else {
                                                                None
                                                            },
                                                        },
                                                    },
                                                },
                                            },
                                        },
                                    },
                                },
                            },
                        },
                    },
                },
            },
        },
    }
}

pub open spec fn dec_body_game_updated(s: Seq<char>) -> Option<EventV> {
    match strip(s, "{\"slug\":"@) {
        None => None,
        Some(s1) => match dec_str(s1) {
            None => None,
            Some((slug, s2)) => match strip(s2, ",\"changes\":"@) {
                None => None,
                Some(s3) => match strip(s3, "{\"title\":"@) {
                    None => None,
                    Some(s4) => match dec_opt_str(s4) {
                        None => None,
                        Some((title, s5)) => match strip(s5, ",\"description\":"@) {
                            None => None,
                            Some(s6) => match dec_opt_str(s6) {
                                None => None,
                                Some((description, s7)) => match strip(s7, ",\"genre\":"@) {
                                    None => None,
                                    Some(s8) => match dec_opt_str(s8) {
                                        None => None,
                                        Some((genre, s9)) => if s9 == "}"@ + "}}"@ {
                                            Some(
                                                EventV::GameUpdated {
                                                    slug,
                                                    changes: GameChangesV {
                                                        title,
                                                        description,
                                                        genre,
                                                    },
                                                },
                                            )
                                        } else {
                                            None
                                        },
                                    },
                                },
                            },
                        },
                    },
                },
            },
        },
    }
}

pub open spec fn dec_body_game_deleted(s: Seq<char>) -> Option<EventV> {
    match strip(s, "{\"slug\":"@) {
        None => None,
        Some(s1) => match dec_str(s1) {
            None => None,
            Some((slug, s2)) => if s2 == "}}"@ {
                Some(EventV::GameDeleted { slug })
            } else {
                None
            },
        },
    }
}

pub open spec fn dec_body_rating_submitted(s: Seq<char>) -> Option<EventV> {
    match strip(s, "{\"game_slug\":"@) {
        None => None,
        Some(s1) => match dec_str(s1) {
            None => None,
            Some((game_slug, s2)) => match strip(s2, ",\"user_id\":"@) {
                None => None,
                Some(s3) => match dec_u128(s3) {
                    None => None,
                    Some((user_id, s4)) => match strip(s4, ",\"rating\":"@) {
                        None => None,
                        Some(s5) => match dec_i32(s5) {
                            None => None,
                            Some((rating, s6)) => match strip(s6, ",\"review\":"@) {
                                None => None,
                                Some(s7) => match dec_opt_str(s7) {
                                    None => None,
                                    Some((review, s8)) => if s8 == "}}"@ {
                                        Some(
                                            EventV::RatingSubmitted {
                                                game_slug,
                                                user_id,
                                                rating,
                                                review,
                                            },
                                        )
                                    } else {
                                        None
                                    },
                                },
                            },
                        },
                    },
                },
            },
        },
    }
}

pub open spec fn dec_tagged(tag: Seq<char>, s: Seq<char>) -> Option<EventV> {
    if tag == "UserRegistered"@ {
        dec_body_user_registered(s)
    } else if tag == "UserLoggedIn"@ {
        dec_body_session(s, true)
    } else if tag == "UserLoggedOut"@ {
        dec_body_session(s, false)
    } else if tag == "UserUpdated"@ {
        dec_body_user_updated(s)
    } else if tag == "UserDeleted"@ {
        dec_body_user_deleted(s)
    } else if tag == "GameCreated"@ {
        dec_body_game_created(s)
    } else if tag == "GameUpdated"@ {
        dec_body_game_updated(s)
    } else if tag == "GameDeleted"@ {
        dec_body_game_deleted(s)
    } else if tag == "RatingSubmitted"@ {
        dec_body_rating_submitted(s)
    } else {
        None
    }
}

/// The spec-level decoder: what the wire text means, if anything.
pub open spec fn dec_event(s: Seq<char>) -> Option<EventV> {
    match strip(s, "{"@) {
        None => None,
        Some(s1) => match dec_str(s1) {
            None => None,
            Some((tag, s2)) => match strip(s2, ":"@) {
                None => None,
                Some(s3) => dec_tagged(tag, s3),
            },
        },
    }
}

// ---------------------------------------------------------------------------
// The executable parser
// ---------------------------------------------------------------------------
pub(crate) fn str_to_chars_pub(s: &str) -> (v: Vec<char>)
    ensures
        v@ == s@,
{
    let n = s.unicode_len();
    let mut v: Vec<char> = Vec::new();
    let mut i: usize = 0;
    while i < n
        invariant
            n == s@.len(),
            0 <= i <= n,
            v@ == s@.take(i as int),
        decreases n - i,
    {
        v.push(s.get_char(i));
        proof {
            assert(v@ =~= s@.take(i + 1));
        }
        i = i + 1;
    }
    proof {
        assert(s@.take(n as int) =~= s@);
    }
    v
}

pub(crate) fn str_eq(a: &str, b: &str) -> (r: bool)
    ensures
        r == (a@ == b@),
{
    let n = a.unicode_len();
    let m = b.unicode_len();
    if n != m {
        proof {
            if a@ == b@ {
                assert(a@.len() == b@.len());
            }
        }
        return false;
    }
    let mut i: usize = 0;
    while i < n
        invariant
            n == a@.len(),
            n == b@.len(),
            0 <= i <= n,
            forall|t: int| 0 <= t < i ==> a@[t] == b@[t],
        decreases n - i,
    {
        if a.get_char(i) != b.get_char(i) {
            proof {
                if a@ == b@ {
                    assert(a@[i as int] == b@[i as int]);
                }
            }
            return false;
        }
        i = i + 1;
    }
    proof {
        assert(a@ =~= b@);
    }
    true
}

fn parse_opt_str(v: &Vec<char>, pos: usize) -> (r: Option<(Option<String>, usize)>)
    requires
        pos <= v.len(),
    ensures
        match r {
            Some(p) => pos <= p.1 <= v.len() && dec_opt_str(v@.skip(pos as int)) == Some(
                (p.0.deep_view(), v@.skip(p.1 as int)),
            ),
            None => dec_opt_str(v@.skip(pos as int)) is None,
        },
{
    if pos < v.len() && v[pos] == '"' {
        proof {
            assert(v@.skip(pos as int)[0] == '"');
        }
        match parse_string(v, pos) {
            Some((s, p2)) => Some((Some(s), p2)),
            None => None,
        }
    } else {
        proof {
            if pos < v.len() {
                assert(v@.skip(pos as int)[0] == v@[pos as int]);
            }
        }
        match expect(v, pos, "null") {
            Some(p2) => Some((None, p2)),
            None => None,
        }
    }
}

fn parse_opt_u128(v: &Vec<char>, pos: usize) -> (r: Option<(Option<u128>, usize)>)
    requires
        pos <= v.len(),
    ensures
        match r {
            Some(p) => pos <= p.1 <= v.len() && dec_opt_u128(v@.skip(pos as int)) == Some(
                (p.0, v@.skip(p.1 as int)),
            ),
            None => dec_opt_u128(v@.skip(pos as int)) is None,
        },
{
    if pos < v.len() && is_digit_exec(v[pos]) {
        proof {
            assert(v@.skip(pos as int)[0] == v@[pos as int]);
        }
        match parse_u128(v, pos) {
            Some((n, p2)) => Some((Some(n), p2)),
            None => None,
        }
    } else {
        proof {
            if pos < v.len() {
                assert(v@.skip(pos as int)[0] == v@[pos as int]);
            }
        }
        match expect(v, pos, "null") {
            Some(p2) => Some((None, p2)),
            None => None,
        }
    }
}

fn parse_opt_i64(v: &Vec<char>, pos: usize) -> (r: Option<(Option<i64>, usize)>)
    requires
        pos <= v.len(),
    ensures
        match r {
            Some(p) => pos <= p.1 <= v.len() && dec_opt_i64(v@.skip(pos as int)) == Some(
                (p.0, v@.skip(p.1 as int)),
            ),
            None => dec_opt_i64(v@.skip(pos as int)) is None,
        },
{
    if pos < v.len() && (is_digit_exec(v[pos]) || v[pos] == '-') {
        proof {
            assert(v@.skip(pos as int)[0] == v@[pos as int]);
        }
        match parse_i64(v, pos) {
            Some((n, p2)) => Some((Some(n), p2)),
            None => None,
        }
    } else {
        proof {
            if pos < v.len() {
                assert(v@.skip(pos as int)[0] == v@[pos as int]);
            }
        }
        match expect(v, pos, "null") {
            Some(p2) => Some((None, p2)),
            None => None,
        }
    }
}

fn parse_i32(v: &Vec<char>, pos: usize) -> (r: Option<(i32, usize)>)
    requires
        pos <= v.len(),
    ensures
        match r {
            Some(p) => pos <= p.1 <= v.len() && dec_i32(v@.skip(pos as int)) == Some(
                (p.0, v@.skip(p.1 as int)),
            ),
            None => dec_i32(v@.skip(pos as int)) is None,
        },
{
    match parse_i64(v, pos) {
        Some((n, p2)) => {
            if -2147483648i64 <= n && n <= 2147483647i64 {
                Some((n as i32, p2))
            } else {
                None
            }
        },
        None => None,
    }
}

/// Consumes the closing braces and demands the end of the input, exactly as
/// the `s == "}}"` check of the spec parsers does.
fn expect_end(v: &Vec<char>, pos: usize, lit: &str) -> (r: bool)
    requires
        pos <= v.len(),
    ensures
        r == (v@.skip(pos as int) == lit@),
{
    match expect(v, pos, lit) {
        Some(p2) => {
            if p2 == v.len() {
                proof {
                    assert(v@.skip(p2 as int) =~= Seq::<char>::empty());
                    assert(v@.skip(pos as int) =~= lit@ + v@.skip(p2 as int));
                    assert(lit@ + Seq::<char>::empty() =~= lit@);
                }
                true
            } else {
                proof {
                    assert(v@.skip(p2 as int).len() > 0);
                    assert(v@.skip(pos as int).len() > lit@.len());
                }
                false
            }
        },
        None => {
            proof {
                if v@.skip(pos as int) == lit@ {
                    lemma_strip_pub(lit@, Seq::<char>::empty());
                    assert(lit@ + Seq::<char>::empty() =~= lit@);
                }
            }
            false
        },
    }
}

fn parse_body_user_registered(v: &Vec<char>, pos: usize) -> (r: Option<DomainEvent>)
    requires
        pos <= v.len(),
    ensures
        match r {
            Some(e) => dec_body_user_registered(v@.skip(pos as int)) == Some(e@),
            None => dec_body_user_registered(v@.skip(pos as int)) is None,
        },
{
    let p1 = match expect(v, pos, "{\"id\":") {
        Some(p) => p,
        None => {
            return None;
        },
    };
    let (id, p2) = match parse_u128(v, p1) {
        Some(x) => x,
        None => {
            return None;
        },
    };
    let p3 = match expect(v, p2, ",\"username\":") {
        Some(p) => p,
        None => {
            return None;
        },
    };
    let (username, p4) = match parse_string(v, p3) {
        Some(x) => x,
        None => {
            return None;
        },
    };
    let p5 = match expect(v, p4, ",\"email\":") {
        Some(p) => p,
        None => {
            return None;
        },
    };
    let (email, p6) = match parse_string(v, p5) {
        Some(x) => x,
        None => {
            return None;
        },
    };
    let p7 = match expect(v, p6, ",\"created_at\":") {
        Some(p) => p,
        None => {
            return None;
        },
    };
    let (created_at, p8) = match parse_opt_i64(v, p7) {
        Some(x) => x,
        None => {
            return None;
        },
    };
    if expect_end(v, p8, "}}") {
        Some(DomainEvent::UserRegistered { id, username, email, created_at })
    } else {
        None
    }
}

fn parse_body_session(v: &Vec<char>, pos: usize, is_login: bool) -> (r: Option<DomainEvent>)
    requires
        pos <= v.len(),
    ensures
        match r {
            Some(e) => dec_body_session(v@.skip(pos as int), is_login) == Some(e@),
            None => dec_body_session(v@.skip(pos as int), is_login) is None,
        },
{
    let p1 = match expect(v, pos, "{\"user_id\":") {
        Some(p) => p,
        None => {
            return None;
        },
    };
    let (user_id, p2) = match parse_u128(v, p1) {
        Some(x) => x,
        None => {
            return None;
        },
    };
    let p3 = match expect(v, p2, ",\"time\":") {
        Some(p) => p,
        None => {
            return None;
        },
    };
    let (time, p4) = match parse_i64(v, p3) {
        Some(x) => x,
        None => {
            return None;
        },
    };
    if expect_end(v, p4, "}}") {
        if is_login {
            Some(DomainEvent::UserLoggedIn { user_id, time })
        } else {
            Some(DomainEvent::UserLoggedOut { user_id, time })
        }
    } else {
        None
    }
}

fn parse_body_user_updated(v: &Vec<char>, pos: usize) -> (r: Option<DomainEvent>)
    requires
        pos <= v.len(),
    ensures
        match r {
            Some(e) => dec_body_user_updated(v@.skip(pos as int)) == Some(e@),
            None => dec_body_user_updated(v@.skip(pos as int)) is None,
        },
{
    let p1 = match expect(v, pos, "{\"id\":") {
        Some(p) => p,
        None => {
            return None;
        },
    };
    let (id, p2) = match parse_u128(v, p1) {
        Some(x) => x,
        None => {
            return None;
        },
    };
    let p3 = match expect(v, p2, ",\"username\":") {
        Some(p) => p,
        None => {
            return None;
        },
    };
    let (username, p4) = match parse_string(v, p3) {
        Some(x) => x,
        None => {
            return None;
        },
    };
    let p5 = match expect(v, p4, ",\"email\":") {
        Some(p) => p,
        None => {
            return None;
        },
    };
    let (email, p6) = match parse_string(v, p5) {
        Some(x) => x,
        None => {
            return None;
        },
    };
    if expect_end(v, p6, "}}") {
        Some(DomainEvent::UserUpdated { id, username, email })
    } else {
        None
    }
}

fn parse_body_user_deleted(v: &Vec<char>, pos: usize) -> (r: Option<DomainEvent>)
    requires
        pos <= v.len(),
    ensures
        match r {
            Some(e) => dec_body_user_deleted(v@.skip(pos as int)) == Some(e@),
            None => dec_body_user_deleted(v@.skip(pos as int)) is None,
        },
{
    let p1 = match expect(v, pos, "{\"id\":") {
        Some(p) => p,
        None => {
            return None;
        },
    };
    let (id, p2) = match parse_u128(v, p1) {
        Some(x) => x,
        None => {
            return None;
        },
    };
    if expect_end(v, p2, "}}") {
        Some(DomainEvent::UserDeleted { id })
    } else {
        None
    }
}

#[verifier::rlimit(50)]
fn parse_body_game_created(v: &Vec<char>, pos: usize) -> (r: Option<DomainEvent>)
    requires
        pos <= v.len(),
    ensures
        match r {
            Some(e) => dec_body_game_created(v@.skip(pos as int)) == Some(e@),
            None => dec_body_game_created(v@.skip(pos as int)) is None,
        },
{
    let p1 = match expect(v, pos, "{\"slug\":") {
        Some(p) => p,
        None => {
            return None;
        },
    };
    let (slug, p2) = match parse_string(v, p1) {
        Some(x) => x,
        None => {
            return None;
        },
    };
    let p3 = match expect(v, p2, ",\"name\":") {
        Some(p) => p,
        None => {
            return None;
        },
    };
    let (name, p4) = match parse_string(v, p3) {
        Some(x) => x,
        None => {
            return None;
        },
    };
    let p5 = match expect(v, p4, ",\"title\":") {
        Some(p) => p,
        None => {
            return None;
        },
    };
    let (title, p6) = match parse_opt_str(v, p5) {
        Some(x) => x,
        None => {
            return None;
        },
    };
    let p7 = match expect(v, p6, ",\"description\":") {
        Some(p) => p,
        None => {
            return None;
        },
    };
    let (description, p8) = match parse_opt_str(v, p7) {
        Some(x) => x,
        None => {
            return None;
        },
    };
    let p9 = match expect(v, p8, ",\"genre\":") {
        Some(p) => p,
        None => {
            return None;
        },
    };
    let (genre, p10) = match parse_opt_str(v, p9) {
        Some(x) => x,
        None => {
            return None;
        },
    };
    let p11 = match expect(v, p10, ",\"created_by\":") {
        Some(p) => p,
        None => {
            return None;
        },
    };
    let (created_by, p12) = match parse_opt_u128(v, p11) {
        Some(x) => x,
        None => {
            return None;
        },
    };
    let p13 = match expect(v, p12, ",\"created_at\":") {
        Some(p) => p,
        None => {
            return None;
        },
    };
    let (created_at, p14) = match parse_opt_i64(v, p13) {
        Some(x) => x,
        None => {
            return None;
        },
    };
    if expect_end(v, p14, "}}") {
        Some(
            DomainEvent::GameCreated(
                GameFields { slug, name, title, description, genre, created_by, created_at },
            ),
        )
    } else {
        None
    }
}

fn parse_body_game_updated(v: &Vec<char>, pos: usize) -> (r: Option<DomainEvent>)
    requires
        pos <= v.len(),
    ensures
        match r {
            Some(e) => dec_body_game_updated(v@.skip(pos as int)) == Some(e@),
            None => dec_body_game_updated(v@.skip(pos as int)) is None,
        },
{
    let p1 = match expect(v, pos, "{\"slug\":") {
        Some(p) => p,
        None => {
            return None;
        },
    };
    let (slug, p2) = match parse_string(v, p1) {
        Some(x) => x,
        None => {
            return None;
        },
    };
    let p3 = match expect(v, p2, ",\"changes\":") {
        Some(p) => p,
        None => {
            return None;
        },
    };
    let p4 = match expect(v, p3, "{\"title\":") {
        Some(p) => p,
        None => {
            return None;
        },
    };
    let (title, p5) = match parse_opt_str(v, p4) {
        Some(x) => x,
        None => {
            return None;
        },
    };
    let p6 = match expect(v, p5, ",\"description\":") {
        Some(p) => p,
        None => {
            return None;
        },
    };
    let (description, p7) = match parse_opt_str(v, p6) {
        Some(x) => x,
        None => {
            return None;
        },
    };
    let p8 = match expect(v, p7, ",\"genre\":") {
        Some(p) => p,
        None => {
            return None;
        },
    };
    let (genre, p9) = match parse_opt_str(v, p8) {
        Some(x) => x,
        None => {
            return None;
        },
    };
    if expect_end(v, p9, "}}}") {
        proof {
            reveal_strlit("}}}");
            reveal_strlit("}");
            reveal_strlit("}}");
            assert("}}}"@ =~= "}"@ + "}}"@);
        }
        Some(
            DomainEvent::GameUpdated { slug, changes: GameChanges { title, description, genre } },
        )
    } else {
        proof {
            reveal_strlit("}}}");
            reveal_strlit("}");
            reveal_strlit("}}");
            assert("}}}"@ =~= "}"@ + "}}"@);
        }
        None
    }
}

fn parse_body_game_deleted(v: &Vec<char>, pos: usize) -> (r: Option<DomainEvent>)
    requires
        pos <= v.len(),
    ensures
        match r {
            Some(e) => dec_body_game_deleted(v@.skip(pos as int)) == Some(e@),
            None => dec_body_game_deleted(v@.skip(pos as int)) is None,
        },
{
    let p1 = match expect(v, pos, "{\"slug\":") {
        Some(p) => p,
        None => {
            return None;
        },
    };
    let (slug, p2) = match parse_string(v, p1) {
        Some(x) => x,
        None => {
            return None;
        },
    };
    if expect_end(v, p2, "}}") {
        Some(DomainEvent::GameDeleted { slug })
    } else {
        None
    }
}

fn parse_body_rating_submitted(v: &Vec<char>, pos: usize) -> (r: Option<DomainEvent>)
    requires
        pos <= v.len(),
    ensures
        match r {
            Some(e) => dec_body_rating_submitted(v@.skip(pos as int)) == Some(e@),
            None => dec_body_rating_submitted(v@.skip(pos as int)) is None,
        },
{
    let p1 = match expect(v, pos, "{\"game_slug\":") {
        Some(p) => p,
        None => {
            return None;
        },
    };
    let (game_slug, p2) = match parse_string(v, p1) {
        Some(x) => x,
        None => {
            return None;
        },
    };
    let p3 = match expect(v, p2, ",\"user_id\":") {
        Some(p) => p,
        None => {
            return None;
        },
    };
    let (user_id, p4) = match parse_u128(v, p3) {
        Some(x) => x,
        None => {
            return None;
        },
    };
    let p5 = match expect(v, p4, ",\"rating\":") {
        Some(p) => p,
        None => {
            return None;
        },
    };
    let (rating, p6) = match parse_i32(v, p5) {
        Some(x) => x,
        None => {
            return None;
        },
    };
    let p7 = match expect(v, p6, ",\"review\":") {
        Some(p) => p,
        None => {
            return None;
        },
    };
    let (review, p8) = match parse_opt_str(v, p7) {
        Some(x) => x,
        None => {
            return None;
        },
    };
    if expect_end(v, p8, "}}") {
        Some(DomainEvent::RatingSubmitted { game_slug, user_id, rating, review })
    } else {
        None
    }
}

/// Deserializes wire text into an event; `None` on any malformed input,
/// exactly as the spec-level decoder says.
pub fn decode_event(s: &str) -> (r: Option<DomainEvent>)
    ensures
        match r {
            Some(e) => dec_event(s@) == Some(e@),
            None => dec_event(s@) is None,
        },
{
    let v = str_to_chars_pub(s);
    proof {
        assert(v@.skip(0) =~= s@);
    }
    let p1 = match expect(&v, 0, "{") {
        Some(p) => p,
        None => {
            return None;
        },
    };
    let (tag, p2) = match parse_string(&v, p1) {
        Some(x) => x,
        None => {
            return None;
        },
    };
    let p3 = match expect(&v, p2, ":") {
        Some(p) => p,
        None => {
            return None;
        },
    };
    if str_eq(tag.as_str(), "UserRegistered") {
        parse_body_user_registered(&v, p3)
    } else if str_eq(tag.as_str(), "UserLoggedIn") {
        parse_body_session(&v, p3, true)
    } else if str_eq(tag.as_str(), "UserLoggedOut") {
        parse_body_session(&v, p3, false)
    } else if str_eq(tag.as_str(), "UserUpdated") {
        parse_body_user_updated(&v, p3)
    } else if str_eq(tag.as_str(), "UserDeleted") {
        parse_body_user_deleted(&v, p3)
    } else if str_eq(tag.as_str(), "GameCreated") {
        parse_body_game_created(&v, p3)
    } else if str_eq(tag.as_str(), "GameUpdated") {
        parse_body_game_updated(&v, p3)
    } else if str_eq(tag.as_str(), "GameDeleted") {
        parse_body_game_deleted(&v, p3)
    } else if str_eq(tag.as_str(), "RatingSubmitted") {
        parse_body_rating_submitted(&v, p3)
    } else {
        None
    }
}

// ---------------------------------------------------------------------------
// Round trip: decoding an encoded event recovers it
// ---------------------------------------------------------------------------
proof fn lemma_dec_enc_str(v: Seq<char>, rest: Seq<char>)
    ensures
        dec_str(enc_str(v) + rest) == Some((v, rest)),
{
    let s = enc_str(v) + rest;
    assert(s[0] == enc_str(v)[0]);
    assert(enc_str(v)[0] == '"');
    assert(s.skip(1) =~= esc(v) + seq!['"'] + rest);
    lemma_dec_enc_str_body(v, rest);
}

proof fn lemma_dec_enc_opt_str(v: Option<Seq<char>>, rest: Seq<char>)
    ensures
        dec_opt_str(enc_opt_str(v) + rest) == Some((v, rest)),
{
    match v {
        Some(x) => {
            let s = enc_str(x) + rest;
            assert(s[0] == enc_str(x)[0]);
            assert(enc_str(x)[0] == '"');
            lemma_dec_enc_str(x, rest);
        },
        None => {
            reveal_strlit("null");
            let s = "null"@ + rest;
            assert(s[0] == "null"@[0]);
            assert("null"@[0] == 'n');
            lemma_strip_pub("null"@, rest);
        },
    }
}

proof fn lemma_dec_enc_opt_u128(v: Option<u128>, rest: Seq<char>)
    requires
        rest.len() == 0 || !is_digit(rest[0]),
    ensures
        dec_opt_u128(enc_opt_u128(v) + rest) == Some((v, rest)),
{
    match v {
        Some(n) => {
            let s = enc_nat(n as nat) + rest;
            lemma_enc_nat_digits(n as nat);
            assert(s[0] == enc_nat(n as nat)[0]);
            assert(is_digit(s[0]));
            lemma_dec_enc_u128(n, rest);
        },
        None => {
            reveal_strlit("null");
            let s = "null"@ + rest;
            assert(s[0] == "null"@[0]);
            assert("null"@[0] == 'n');
            assert(!is_digit('n'));
            lemma_strip_pub("null"@, rest);
        },
    }
}

proof fn lemma_dec_enc_opt_i64(v: Option<i64>, rest: Seq<char>)
    requires
        rest.len() == 0 || !is_digit(rest[0]),
    ensures
        dec_opt_i64(enc_opt_i64(v) + rest) == Some((v, rest)),
{
    match v {
        Some(n) => {
            let s = enc_int(n as int) + rest;
            assert(s[0] == enc_int(n as int)[0]);
            if n < 0 {
                assert(enc_int(n as int)[0] == '-');
            } else {
                lemma_enc_nat_digits(n as nat);
                assert(enc_int(n as int)[0] == enc_nat(n as nat)[0]);
            }
            lemma_dec_enc_i64(n, rest);
        },
        None => {
            reveal_strlit("null");
            let s = "null"@ + rest;
            assert(s[0] == "null"@[0]);
            assert("null"@[0] == 'n');
            assert(!is_digit('n'));
            lemma_strip_pub("null"@, rest);
        },
    }
}

proof fn lemma_dec_enc_i32(n: i32, rest: Seq<char>)
    requires
        rest.len() == 0 || !is_digit(rest[0]),
    ensures
        dec_i32(enc_int(n as int) + rest) == Some((n, rest)),
{
    lemma_dec_enc_i64(n as i64, rest);
}

proof fn lemma_tags_distinct()
    ensures
        "UserRegistered"@ != "UserLoggedIn"@,
        "UserRegistered"@ != "UserLoggedOut"@,
        "UserRegistered"@ != "UserUpdated"@,
        "UserRegistered"@ != "UserDeleted"@,
        "UserRegistered"@ != "GameCreated"@,
        "UserRegistered"@ != "GameUpdated"@,
        "UserRegistered"@ != "GameDeleted"@,
        "UserRegistered"@ != "RatingSubmitted"@,
        "UserLoggedIn"@ != "UserLoggedOut"@,
        "UserLoggedIn"@ != "UserUpdated"@,
        "UserLoggedIn"@ != "UserDeleted"@,
        "UserLoggedIn"@ != "GameCreated"@,
        "UserLoggedIn"@ != "GameUpdated"@,
        "UserLoggedIn"@ != "GameDeleted"@,
        "UserLoggedIn"@ != "RatingSubmitted"@,
        "UserLoggedOut"@ != "UserUpdated"@,
        "UserLoggedOut"@ != "UserDeleted"@,
        "UserLoggedOut"@ != "GameCreated"@,
        "UserLoggedOut"@ != "GameUpdated"@,
        "UserLoggedOut"@ != "GameDeleted"@,
        "UserLoggedOut"@ != "RatingSubmitted"@,
        "UserUpdated"@ != "UserDeleted"@,
        "UserUpdated"@ != "GameCreated"@,
        "UserUpdated"@ != "GameUpdated"@,
        "UserUpdated"@ != "GameDeleted"@,
        "UserUpdated"@ != "RatingSubmitted"@,
        "UserDeleted"@ != "GameCreated"@,
        "UserDeleted"@ != "GameUpdated"@,
        "UserDeleted"@ != "GameDeleted"@,
        "UserDeleted"@ != "RatingSubmitted"@,
        "GameCreated"@ != "GameUpdated"@,
        "GameCreated"@ != "GameDeleted"@,
        "GameCreated"@ != "RatingSubmitted"@,
        "GameUpdated"@ != "GameDeleted"@,
        "GameUpdated"@ != "RatingSubmitted"@,
        "GameDeleted"@ != "RatingSubmitted"@,
{
    reveal_strlit("UserRegistered");
    reveal_strlit("UserLoggedIn");
    reveal_strlit("UserLoggedOut");
    reveal_strlit("UserUpdated");
    reveal_strlit("UserDeleted");
    reveal_strlit("GameCreated");
    reveal_strlit("GameUpdated");
    reveal_strlit("GameDeleted");
    reveal_strlit("RatingSubmitted");
    assert("UserRegistered"@.len() == 14);
    assert("UserLoggedIn"@.len() == 12);
    assert("UserLoggedOut"@.len() == 13);
    assert("UserUpdated"@.len() == 11);
    assert("UserDeleted"@.len() == 11);
    assert("GameCreated"@.len() == 11);
    assert("GameUpdated"@.len() == 11);
    assert("GameDeleted"@.len() == 11);
    assert("RatingSubmitted"@.len() == 15);
    assert("UserUpdated"@[4] == 'U');
    assert("UserDeleted"@[4] == 'D');
    assert("UserUpdated"@[0] == 'U');
    assert("UserDeleted"@[0] == 'U');
    assert("GameCreated"@[0] == 'G');
    assert("GameUpdated"@[0] == 'G');
    assert("GameDeleted"@[0] == 'G');
    assert("GameCreated"@[4] == 'C');
    assert("GameUpdated"@[4] == 'U');
    assert("GameDeleted"@[4] == 'D');
}

proof fn lemma_rt_user_registered(
    id: u128,
    username: Seq<char>,
    email: Seq<char>,
    created_at: Option<i64>,
)
    ensures
        dec_body_user_registered(
            enc_body((EventV::UserRegistered { id, username, email, created_at })),
        ) == Some(EventV::UserRegistered { id, username, email, created_at }),
{
    let b = enc_body((EventV::UserRegistered { id, username, email, created_at }));
    let r2 = ",\"username\":"@ + (enc_str(username) + (",\"email\":"@ + (enc_str(email) + (
    ",\"created_at\":"@ + (enc_opt_i64(created_at) + "}}"@)))));
    let r1 = enc_nat(id as nat) + r2;
    assert(b =~= "{\"id\":"@ + r1);
    lemma_strip_pub("{\"id\":"@, r1);
    reveal_strlit(",\"username\":");
    assert(r2[0] == ",\"username\":"@[0]);
    assert(!is_digit(r2[0]));
    lemma_dec_enc_u128(id, r2);
    let r3 = enc_str(username) + (",\"email\":"@ + (enc_str(email) + (",\"created_at\":"@ + (
    enc_opt_i64(created_at) + "}}"@))));
    lemma_strip_pub(",\"username\":"@, r3);
    let r4 = ",\"email\":"@ + (enc_str(email) + (",\"created_at\":"@ + (enc_opt_i64(created_at)
        + "}}"@)));
    lemma_dec_enc_str(username, r4);
    let r5 = enc_str(email) + (",\"created_at\":"@ + (enc_opt_i64(created_at) + "}}"@));
    lemma_strip_pub(",\"email\":"@, r5);
    let r6 = ",\"created_at\":"@ + (enc_opt_i64(created_at) + "}}"@);
    lemma_dec_enc_str(email, r6);
    let r7 = enc_opt_i64(created_at) + "}}"@;
    lemma_strip_pub(",\"created_at\":"@, r7);
    reveal_strlit("}}");
    assert("}}"@[0] == '}');
    assert(!is_digit('}'));
    lemma_dec_enc_opt_i64(created_at, "}}"@);
}

proof fn lemma_rt_session(user_id: u128, time: i64, is_login: bool)
    ensures
        is_login ==> dec_body_session(enc_body((EventV::UserLoggedIn { user_id, time })), true)
            == Some(EventV::UserLoggedIn { user_id, time }),
        !is_login ==> dec_body_session(enc_body((EventV::UserLoggedOut { user_id, time })), false)
            == Some(EventV::UserLoggedOut { user_id, time }),
{
    let b = if is_login {
        enc_body((EventV::UserLoggedIn { user_id, time }))
    } else {
        enc_body((EventV::UserLoggedOut { user_id, time }))
    };
    let r2 = ",\"time\":"@ + (enc_int(time as int) + "}}"@);
    let r1 = enc_nat(user_id as nat) + r2;
    assert(b =~= "{\"user_id\":"@ + r1);
    lemma_strip_pub("{\"user_id\":"@, r1);
    reveal_strlit(",\"time\":");
    assert(r2[0] == ",\"time\":"@[0]);
    assert(!is_digit(r2[0]));
    lemma_dec_enc_u128(user_id, r2);
    let r3 = enc_int(time as int) + "}}"@;
    lemma_strip_pub(",\"time\":"@, r3);
    reveal_strlit("}}");
    assert("}}"@[0] == '}');
    assert(!is_digit('}'));
    lemma_dec_enc_i64(time, "}}"@);
}

proof fn lemma_rt_user_updated(id: u128, username: Seq<char>, email: Seq<char>)
    ensures
        dec_body_user_updated(enc_body((EventV::UserUpdated { id, username, email }))) == Some(
            EventV::UserUpdated { id, username, email },
        ),
{
    let b = enc_body((EventV::UserUpdated { id, username, email }));
    let r2 = ",\"username\":"@ + (enc_str(username) + (",\"email\":"@ + (enc_str(email)
        + "}}"@)));
    let r1 = enc_nat(id as nat) + r2;
    assert(b =~= "{\"id\":"@ + r1);
    lemma_strip_pub("{\"id\":"@, r1);
    reveal_strlit(",\"username\":");
    assert(r2[0] == ",\"username\":"@[0]);
    assert(!is_digit(r2[0]));
    lemma_dec_enc_u128(id, r2);
    let r3 = enc_str(username) + (",\"email\":"@ + (enc_str(email) + "}}"@));
    lemma_strip_pub(",\"username\":"@, r3);
    let r4 = ",\"email\":"@ + (enc_str(email) + "}}"@);
    lemma_dec_enc_str(username, r4);
    let r5 = enc_str(email) + "}}"@;
    lemma_strip_pub(",\"email\":"@, r5);
    lemma_dec_enc_str(email, "}}"@);
}

proof fn lemma_rt_user_deleted(id: u128)
    ensures
        dec_body_user_deleted(enc_body((EventV::UserDeleted { id }))) == Some(
            EventV::UserDeleted { id },
        ),
{
    let b = enc_body((EventV::UserDeleted { id }));
    let r1 = enc_nat(id as nat) + "}}"@;
    assert(b =~= "{\"id\":"@ + r1);
    lemma_strip_pub("{\"id\":"@, r1);
    reveal_strlit("}}");
    assert("}}"@[0] == '}');
    assert(!is_digit('}'));
    lemma_dec_enc_u128(id, "}}"@);
}

#[verifier::rlimit(100)]
proof fn lemma_rt_game_created(g: GameFieldsV)
    ensures
        dec_body_game_created(enc_body(EventV::GameCreated(g))) == Some(EventV::GameCreated(g)),
{
    let b = enc_body(EventV::GameCreated(g));
    let r13 = enc_opt_i64(g.created_at) + "}}"@;
    let r12 = ",\"created_at\":"@ + r13;
    let r11 = enc_opt_u128(g.created_by) + r12;
    let r10 = ",\"created_by\":"@ + r11;
    let r9 = enc_opt_str(g.genre) + r10;
    let r8 = ",\"genre\":"@ + r9;
    let r7 = enc_opt_str(g.description) + r8;
    let r6 = ",\"description\":"@ + r7;
    let r5 = enc_opt_str(g.title) + r6;
    let r4 = ",\"title\":"@ + r5;
    let r3 = enc_str(g.name) + r4;
    let r2 = ",\"name\":"@ + r3;
    let r1 = enc_str(g.slug) + r2;
    assert(b =~= "{\"slug\":"@ + r1);
    lemma_strip_pub("{\"slug\":"@, r1);
    assert(strip(b, "{\"slug\":"@) == Some(r1));
    lemma_dec_enc_str(g.slug, r2);
    assert(dec_str(r1) == Some((g.slug, r2)));
    lemma_strip_pub(",\"name\":"@, r3);
    assert(strip(r2, ",\"name\":"@) == Some(r3));
    lemma_dec_enc_str(g.name, r4);
    assert(dec_str(r3) == Some((g.name, r4)));
    lemma_strip_pub(",\"title\":"@, r5);
    assert(strip(r4, ",\"title\":"@) == Some(r5));
    lemma_dec_enc_opt_str(g.title, r6);
    assert(dec_opt_str(r5) == Some((g.title, r6)));
    lemma_strip_pub(",\"description\":"@, r7);
    assert(strip(r6, ",\"description\":"@) == Some(r7));
    lemma_dec_enc_opt_str(g.description, r8);
    assert(dec_opt_str(r7) == Some((g.description, r8)));
    lemma_strip_pub(",\"genre\":"@, r9);
    assert(strip(r8, ",\"genre\":"@) == Some(r9));
    lemma_dec_enc_opt_str(g.genre, r10);
    assert(dec_opt_str(r9) == Some((g.genre, r10)));
    lemma_strip_pub(",\"created_by\":"@, r11);
    assert(strip(r10, ",\"created_by\":"@) == Some(r11));
    reveal_strlit(",\"created_at\":");
    assert(r12[0] == ",\"created_at\":"@[0]);
    assert(!is_digit(r12[0]));
    lemma_dec_enc_opt_u128(g.created_by, r12);
    assert(dec_opt_u128(r11) == Some((g.created_by, r12)));
    lemma_strip_pub(",\"created_at\":"@, r13);
    assert(strip(r12, ",\"created_at\":"@) == Some(r13));
    reveal_strlit("}}");
    assert("}}"@[0] == '}');
    assert(!is_digit('}'));
    lemma_dec_enc_opt_i64(g.created_at, "}}"@);
    assert(dec_opt_i64(r13) == Some((g.created_at, "}}"@)));
}

proof fn lemma_rt_game_updated(slug: Seq<char>, changes: GameChangesV)
    ensures
        dec_body_game_updated(enc_body((EventV::GameUpdated { slug, changes }))) == Some(
            EventV::GameUpdated { slug, changes },
        ),
{
    let b = enc_body((EventV::GameUpdated { slug, changes }));
    let tail = "}"@ + "}}"@;
    let r8 = enc_opt_str(changes.genre) + tail;
    let r7 = ",\"genre\":"@ + r8;
    let r6 = enc_opt_str(changes.description) + r7;
    let r5 = ",\"description\":"@ + r6;
    let r4 = enc_opt_str(changes.title) + r5;
    let r3 = "{\"title\":"@ + r4;
    let r2 = ",\"changes\":"@ + r3;
    let r1 = enc_str(slug) + r2;
    assert(b =~= "{\"slug\":"@ + r1);
    lemma_strip_pub("{\"slug\":"@, r1);
    lemma_dec_enc_str(slug, r2);
    lemma_strip_pub(",\"changes\":"@, r3);
    lemma_strip_pub("{\"title\":"@, r4);
    lemma_dec_enc_opt_str(changes.title, r5);
    lemma_strip_pub(",\"description\":"@, r6);
    lemma_dec_enc_opt_str(changes.description, r7);
    lemma_strip_pub(",\"genre\":"@, r8);
    lemma_dec_enc_opt_str(changes.genre, tail);
}

proof fn lemma_rt_game_deleted(slug: Seq<char>)
    ensures
        dec_body_game_deleted(enc_body((EventV::GameDeleted { slug }))) == Some(
            EventV::GameDeleted { slug },
        ),
{
    let b = enc_body((EventV::GameDeleted { slug }));
    let r1 = enc_str(slug) + "}}"@;
    assert(b =~= "{\"slug\":"@ + r1);
    lemma_strip_pub("{\"slug\":"@, r1);
    lemma_dec_enc_str(slug, "}}"@);
}

proof fn lemma_rt_rating_submitted(
    game_slug: Seq<char>,
    user_id: u128,
    rating: i32,
    review: Option<Seq<char>>,
)
    ensures
        dec_body_rating_submitted(
            enc_body((EventV::RatingSubmitted { game_slug, user_id, rating, review })),
        ) == Some(EventV::RatingSubmitted { game_slug, user_id, rating, review }),
{
    let b = enc_body((EventV::RatingSubmitted { game_slug, user_id, rating, review }));
    let r7 = enc_opt_str(review) + "}}"@;
    let r6 = ",\"review\":"@ + r7;
    let r5 = enc_int(rating as int) + r6;
    let r4 = ",\"rating\":"@ + r5;
    let r3 = enc_nat(user_id as nat) + r4;
    let r2 = ",\"user_id\":"@ + r3;
    let r1 = enc_str(game_slug) + r2;
    assert(b =~= "{\"game_slug\":"@ + r1);
    lemma_strip_pub("{\"game_slug\":"@, r1);
    lemma_dec_enc_str(game_slug, r2);
    lemma_strip_pub(",\"user_id\":"@, r3);
    reveal_strlit(",\"rating\":");
    assert(r4[0] == ",\"rating\":"@[0]);
    assert(!is_digit(r4[0]));
    lemma_dec_enc_u128(user_id, r4);
    lemma_strip_pub(",\"rating\":"@, r5);
    reveal_strlit(",\"review\":");
    assert(r6[0] == ",\"review\":"@[0]);
    assert(!is_digit(r6[0]));
    lemma_dec_enc_i32(rating, r6);
    lemma_strip_pub(",\"review\":"@, r7);
    lemma_dec_enc_opt_str(review, "}}"@);
}

/// Round trip: decoding the canonical wire text of any event recovers the
/// event, every field equal.
pub proof fn lemma_codec_round_trip(e: EventV)
    ensures
        dec_event(enc_event(e)) == Some(e),
{
    let s = enc_event(e);
    let tag = tag_of(e);
    let b = enc_body(e);
    assert(s =~= "{"@ + (enc_str(tag) + (":"@ + b)));
    lemma_strip_pub("{"@, enc_str(tag) + (":"@ + b));
    lemma_dec_enc_str(tag, ":"@ + b);
    lemma_strip_pub(":"@, b);
    lemma_tags_distinct();
    match e {
        EventV::UserRegistered { id, username, email, created_at } => {
            lemma_rt_user_registered(id, username, email, created_at);
        },
        EventV::UserLoggedIn { user_id, time } => {
            lemma_rt_session(user_id, time, true);
        },
        EventV::UserLoggedOut { user_id, time } => {
            lemma_rt_session(user_id, time, false);
        },
        EventV::UserUpdated { id, username, email } => {
            lemma_rt_user_updated(id, username, email);
        },
        EventV::UserDeleted { id } => {
            lemma_rt_user_deleted(id);
        },
        EventV::GameCreated(g) => {
            lemma_rt_game_created(g);
        },
        EventV::GameUpdated { slug, changes } => {
            lemma_rt_game_updated(slug, changes);
        },
        EventV::GameDeleted { slug } => {
            lemma_rt_game_deleted(slug);
        },
        EventV::RatingSubmitted { game_slug, user_id, rating, review } => {
            lemma_rt_rating_submitted(game_slug, user_id, rating, review);
        },
    }
}

} // verus!
