//! Decimal text for 64-bit integers.
//!
//! The workspace-name codec reads and writes numeric components exactly as
//! Rust's integer parser and formatter do: parsing accepts an optional sign
//! followed by one or more ASCII digits, and fails when the value does not
//! fit in an `i64`; formatting emits a minus sign for negative values and
//! no sign otherwise.  Both directions are written out here and verified
//! against the specification functions below.

use vstd::prelude::*;
use vstd::arithmetic::div_mod::lemma_fundamental_div_mod;

verus! {

/// Is `c` an ASCII decimal digit?
pub open spec fn is_digit(c: char) -> bool {
    48 <= c as u32 && c as u32 <= 57
}

/// The numeric value of a digit character.
pub open spec fn digit_val(c: char) -> int {
    c as u32 - 48
}

/// Every character of `s` is a digit.
pub open spec fn all_digits(s: Seq<char>) -> bool {
    forall|i: int| 0 <= i < s.len() ==> is_digit(#[trigger] s[i])
}

/// The value of a digit string, most significant digit first.
pub open spec fn dec_val(s: Seq<char>) -> int
    decreases s.len(),
{
    if s.len() == 0 {
        0
    } else {
        dec_val(s.drop_last()) * 10 + digit_val(s.last())
    }
}

/// The digit character for a value below ten.
pub open spec fn digit_char(d: int) -> char {
    if d == 0 { '0' }
    else if d == 1 { '1' }
    else if d == 2 { '2' }
    else if d == 3 { '3' }
    else if d == 4 { '4' }
    else if d == 5 { '5' }
    else if d == 6 { '6' }
    else if d == 7 { '7' }
    else if d == 8 { '8' }
    else { '9' }
}

/// The decimal digits of a nonnegative value, without a sign.
pub open spec fn u_dec(n: int) -> Seq<char>
    decreases n,
{
    if n < 10 {
        seq![digit_char(n)]
    } else {
        u_dec(n / 10).push(digit_char(n % 10))
    }
}

/// The decimal text of an integer, as Rust's formatter writes it.
pub open spec fn i64_dec(n: int) -> Seq<char> {
    if n < 0 {
        seq!['-'] + u_dec(-n)
    } else {
        u_dec(n)
    }
}

/// The unsigned part of a candidate number: everything after a leading
/// `+` or `-`, or the whole string when no sign is present.
pub open spec fn num_body(s: Seq<char>) -> Seq<char> {
    if s.len() > 0 && (s[0] == '+' || s[0] == '-') {
        s.drop_first()
    } else {
        s
    }
}

/// Does the sign make the value negative?
pub open spec fn num_negative(s: Seq<char>) -> bool {
    s.len() > 0 && s[0] == '-'
}

/// The signed value of a candidate number (meaningful when the body is
/// all digits).
pub open spec fn signed_val(s: Seq<char>) -> int {
    if num_negative(s) {
        -dec_val(num_body(s))
    } else {
        dec_val(num_body(s))
    }
}

/// Does `s` parse as an `i64`, exactly as `str::parse::<i64>` decides it:
/// an optional sign, at least one digit, nothing else, and a value that
/// fits in the type.
pub open spec fn parses_as_i64(s: Seq<char>) -> bool {
    &&& num_body(s).len() > 0
    &&& all_digits(num_body(s))
    &&& i64::MIN <= signed_val(s) <= i64::MAX
}

/// A digit string's value is nonnegative.
pub proof fn lemma_dec_val_nonneg(s: Seq<char>)
    requires
        all_digits(s),
    ensures
        dec_val(s) >= 0,
    decreases s.len(),
{
    if s.len() > 0 {
        lemma_dec_val_nonneg(s.drop_last());
    }
}

/// Extending a digit string by one digit multiplies its value by ten and
/// adds the digit; it never shrinks the value.
pub proof fn lemma_dec_val_extend_ge(s: Seq<char>, t: Seq<char>)
    requires
        all_digits(s),
        all_digits(t),
    ensures
        dec_val(s + t) >= dec_val(s),
        all_digits(s + t),
    decreases t.len(),
{
    lemma_dec_val_nonneg(s);
    if t.len() == 0 {
        assert(s + t =~= s);
    } else {
        let t0 = t.drop_last();
        lemma_dec_val_extend_ge(s, t0);
        assert(s + t =~= (s + t0).push(t.last()));
        assert((s + t0).push(t.last()).drop_last() =~= s + t0);
        lemma_dec_val_nonneg(s + t0);
    }
}

/// The digits of a nonnegative value are digits, start with a digit, and
/// evaluate back to that value.
pub proof fn lemma_u_dec_facts(n: int)
    requires
        n >= 0,
    ensures
        all_digits(u_dec(n)),
        u_dec(n).len() >= 1,
        dec_val(u_dec(n)) == n,
    decreases n,
{
    if n < 10 {
        let s = seq![digit_char(n)];
        assert(u_dec(n) =~= s);
        assert(s.drop_last() =~= Seq::<char>::empty());
        assert(dec_val(s) == dec_val(s.drop_last()) * 10 + digit_val(s.last()));
        assert(digit_val(digit_char(n)) == n);
    } else {
        lemma_u_dec_facts(n / 10);
        lemma_fundamental_div_mod(n, 10);
        let w = u_dec(n / 10);
        assert(u_dec(n) =~= w.push(digit_char(n % 10)));
        assert(w.push(digit_char(n % 10)).drop_last() =~= w);
        assert(dec_val(u_dec(n)) == dec_val(w) * 10 + digit_val(digit_char(n % 10)));
    }
}

/// Formatting a value in `i64` range and parsing it back yields the value.
pub proof fn lemma_i64_dec_round_trip(n: int)
    requires
        i64::MIN <= n <= i64::MAX,
    ensures
        parses_as_i64(i64_dec(n)),
        signed_val(i64_dec(n)) == n,
{
    if n < 0 {
        lemma_u_dec_facts(-n);
        let s = seq!['-'] + u_dec(-n);
        assert(s[0] == '-');
        assert(s.drop_first() =~= u_dec(-n));
    } else {
        lemma_u_dec_facts(n);
        let s = u_dec(n);
        assert(is_digit(s[0]));
        assert(s[0] != '+' && s[0] != '-');
    }
}

/// Parse a string as an `i64`, accepting exactly what `str::parse::<i64>`
/// accepts.
pub fn parse_i64(s: &str) -> (r: Option<i64>)
    ensures
        r is Some <==> parses_as_i64(s@),
        r is Some ==> r->0 == signed_val(s@),
{
    let n = s.unicode_len();
    if n == 0 {
        return None;
    }
    let first = s.get_char(0);
    let neg = first == '-';
    let signed = neg || first == '+';
    let start: usize = if signed { 1 } else { 0 };
    if start == n {
        // a bare sign has an empty body
        assert(num_body(s@) =~= s@.drop_first());
        return None;
    }
    // The largest magnitude that still fits: one more for negative values.
    let limit: u64 = if neg { 9223372036854775808 } else { 9223372036854775807 };
    let ghost body = num_body(s@);
    proof {
        if signed {
            assert(body =~= s@.drop_first());
        } else {
            assert(body =~= s@);
        }
    }
    let mut mag: u64 = 0;
    let mut i: usize = start;
    while i < n
        invariant
            start <= i <= n,
            n == s@.len(),
            start == if signed { 1int } else { 0int },
            body == num_body(s@),
            body.len() == n - start,
            forall|k: int| 0 <= k < i - start ==> is_digit(#[trigger] body[k]),
            mag == dec_val(body.take(i - start)),
            mag <= limit,
            limit == if neg { 9223372036854775808u64 } else { 9223372036854775807u64 },
            neg == num_negative(s@),
        decreases n - i,
    {
        let c = s.get_char(i);
        let cu = c as u32;
        proof {
            assert(body[i - start] == s@[i as int]);
        }
        if cu < 48 || cu > 57 {
            return None;
        }
        let d: u64 = (cu - 48) as u64;
        let ghost taken = body.take(i - start);
        let ghost taken1 = body.take(i + 1 - start);
        proof {
            assert(taken1.drop_last() =~= taken);
            assert(taken1.last() == body[i - start]);
            lemma_dec_val_nonneg(taken1);
        }
        if mag > (limit - d) / 10 {
            // The value already exceeds the range; more digits only grow it.
            proof {
                lemma_fundamental_div_mod((limit - d) as int, 10);
                assert(dec_val(taken1) > limit);
                if parses_as_i64(s@) {
                    let rest = body.skip(i + 1 - start);
                    assert(body =~= taken1 + rest);
                    lemma_dec_val_extend_ge(taken1, rest);
                    assert(dec_val(body) > limit);
                    if neg {
                        assert(signed_val(s@) < i64::MIN);
                    } else {
                        assert(signed_val(s@) > i64::MAX);
                    }
                }
            }
            return None;
        }
        proof {
            lemma_fundamental_div_mod((limit - d) as int, 10);
        }
        mag = mag * 10 + d;
        i = i + 1;
    }
    proof {
        assert(body.take(n - start) =~= body);
        lemma_dec_val_nonneg(body);
    }
    if neg {
        if mag == 9223372036854775808 {
            Some(i64::MIN)
        } else {
            Some(-(mag as i64))
        }
    } else {
        Some(mag as i64)
    }
}

/// The digit character for a value below ten, as executable code.
fn digit_char_exec(d: u64) -> (c: char)
    requires
        d < 10,
    ensures
        c == digit_char(d as int),
{
    if d == 0 { '0' }
    else if d == 1 { '1' }
    else if d == 2 { '2' }
    else if d == 3 { '3' }
    else if d == 4 { '4' }
    else if d == 5 { '5' }
    else if d == 6 { '6' }
    else if d == 7 { '7' }
    else if d == 8 { '8' }
    else { '9' }
}

/// Relies on `String::push`: appends one character at the end.
#[verifier::external_body]
pub(crate) fn push_char(s: &mut String, c: char)
    ensures
        final(s)@ == old(s)@.push(c),
{
    s.push(c);
}

/// The decimal digits of a `u64`, without a sign.
fn u64_to_string(n: u64) -> (r: String)
    ensures
        r@ == u_dec(n as int),
    decreases n,
{
    if n < 10 {
        let mut r = String::new();
        push_char(&mut r, digit_char_exec(n));
        proof {
            assert(r@ =~= seq![digit_char(n as int)]);
        }
        r
    } else {
        let mut r = u64_to_string(n / 10);
        push_char(&mut r, digit_char_exec(n % 10));
        r
    }
}

/// The decimal text of an `i64`, as Rust's formatter writes it.
pub fn i64_to_string(n: i64) -> (r: String)
    ensures
        r@ == i64_dec(n as int),
{
    if n >= 0 {
        u64_to_string(n as u64)
    } else {
        let mag: u64 = if n == i64::MIN {
            9223372036854775808
        } else {
            (-n) as u64
        };
        let mut r = String::new();
        push_char(&mut r, '-');
        let digits = u64_to_string(mag);
        let out = r.concat(digits.as_str());
        proof {
            assert(out@ =~= seq!['-'] + u_dec(-(n as int)));
        }
        out
    }
}

} // verus!
