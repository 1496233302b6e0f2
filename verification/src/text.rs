//! Small verified text utilities: decimal rendering, digit parsing and the
//! character classes that a request target may use.
//!
//! Query strings, date stamps and signatures are all built from these pieces,
//! so their contracts pin the produced characters exactly.

use vstd::prelude::*;
use vstd::string::*;

verus! {

/// Relies on `String::push`: appends exactly the one character.
#[verifier::external_body]
pub fn push_char(s: &mut String, c: char)
    ensures
        final(s)@ == old(s)@.push(c),
{
    s.push(c);
}

/// The character for one decimal digit.
pub open spec fn spec_digit_char(d: int) -> char {
    if d == 0 {
        '0'
    } else if d == 1 {
        '1'
    } else if d == 2 {
        '2'
    } else if d == 3 {
        '3'
    } else if d == 4 {
        '4'
    } else if d == 5 {
        '5'
    } else if d == 6 {
        '6'
    } else if d == 7 {
        '7'
    } else if d == 8 {
        '8'
    } else {
        '9'
    }
}

/// The usual decimal rendering of a natural number, without leading zeros.
pub open spec fn spec_dec_nat(n: nat) -> Seq<char>
    decreases n,
{
    if n < 10 {
        seq![spec_digit_char(n as int)]
    } else {
        spec_dec_nat(n / 10) + seq![spec_digit_char((n % 10) as int)]
    }
}

/// The decimal rendering of a signed number: a minus sign, then the digits.
pub open spec fn spec_dec_i64(n: int) -> Seq<char> {
    if n < 0 {
        seq!['-'] + spec_dec_nat((-n) as nat)
    } else {
        spec_dec_nat(n as nat)
    }
}

pub open spec fn spec_is_digit(c: char) -> bool {
    0x30 <= (c as u32) <= 0x39
}

/// The numeric value of one digit character.
pub open spec fn spec_digit_val(c: char) -> int {
    (c as u32) - 0x30
}

/// The natural number a digit sequence denotes.
pub open spec fn spec_parse_nat(s: Seq<char>) -> nat
    decreases s.len(),
{
    if s.len() == 0 {
        0
    } else {
        (spec_parse_nat(s.drop_last()) * 10 + spec_digit_val(s.last())) as nat
    }
}

fn digit_char(d: u64) -> (c: char)
    requires
        d < 10,
    ensures
        c == spec_digit_char(d as int),
{
    if d == 0 {
        '0'
    } else if d == 1 {
        '1'
    } else if d == 2 {
        '2'
    } else if d == 3 {
        '3'
    } else if d == 4 {
        '4'
    } else if d == 5 {
        '5'
    } else if d == 6 {
        '6'
    } else if d == 7 {
        '7'
    } else if d == 8 {
        '8'
    } else {
        '9'
    }
}

/// Appends the decimal rendering of `n` to `s`.
pub fn push_dec_u64(s: &mut String, n: u64)
    ensures
        final(s)@ == old(s)@ + spec_dec_nat(n as nat),
    decreases n,
{
    let d = digit_char(n % 10);
    if n < 10 {
        push_char(s, d);
    } else {
        push_dec_u64(s, n / 10);
        push_char(s, d);
    }
    assert(s@ =~= old(s)@ + spec_dec_nat(n as nat));
}

/// Appends the decimal rendering of a signed number to `s`.
pub fn push_dec_i64(s: &mut String, n: i64)
    ensures
        final(s)@ == old(s)@ + spec_dec_i64(n as int),
{
    if n < 0 {
        push_char(s, '-');
        let mag: u64 = (-(n as i128)) as u64;
        push_dec_u64(s, mag);
        assert(s@ =~= old(s)@ + spec_dec_i64(n as int));
    } else {
        push_dec_u64(s, n as u64);
    }
}

/// Every character of a decimal rendering is a digit.
pub proof fn lemma_dec_nat_digits(n: nat)
    ensures
        spec_dec_nat(n).len() >= 1,
        forall|i: int| 0 <= i < spec_dec_nat(n).len() ==> spec_is_digit(#[trigger] spec_dec_nat(n)[i]),
    decreases n,
{
    if n >= 10 {
        lemma_dec_nat_digits(n / 10);
    }
}

proof fn lemma_digit_roundtrip(d: int)
    requires
        0 <= d < 10,
    ensures
        spec_digit_val(spec_digit_char(d)) == d,
{
}

/// Reading the decimal rendering back gives the number itself.
pub proof fn lemma_parse_of_dec(n: nat)
    ensures
        spec_parse_nat(spec_dec_nat(n)) == n,
    decreases n,
{
    if n < 10 {
        lemma_digit_roundtrip(n as int);
        assert(spec_dec_nat(n).drop_last() =~= Seq::<char>::empty());
        assert(spec_parse_nat(Seq::<char>::empty()) == 0);
        assert(spec_dec_nat(n).last() == spec_digit_char(n as int));
    } else {
        lemma_parse_of_dec(n / 10);
        lemma_digit_roundtrip((n % 10) as int);
        assert(spec_dec_nat(n).drop_last() =~= spec_dec_nat(n / 10));
        assert(spec_dec_nat(n).last() == spec_digit_char((n % 10) as int));
        vstd::arithmetic::div_mod::lemma_fundamental_div_mod(n as int, 10);
    }
}

/// Distinct numbers have distinct decimal renderings.
pub proof fn lemma_dec_nat_injective(a: nat, b: nat)
    requires
        spec_dec_nat(a) == spec_dec_nat(b),
    ensures
        a == b,
{
    lemma_parse_of_dec(a);
    lemma_parse_of_dec(b);
}

/// A digit run followed by a non-digit determines itself: if two
/// digit-only sequences agree once each is extended by a tail that opens
/// with a non-digit, the runs and the tails agree separately.
pub proof fn lemma_digit_run_framed(x: Seq<char>, y: Seq<char>, s: Seq<char>, t: Seq<char>)
    requires
        forall|i: int| 0 <= i < x.len() ==> spec_is_digit(#[trigger] x[i]),
        forall|i: int| 0 <= i < y.len() ==> spec_is_digit(#[trigger] y[i]),
        s.len() > 0,
        t.len() > 0,
        !spec_is_digit(s[0]),
        !spec_is_digit(t[0]),
        x + s == y + t,
    ensures
        x == y,
        s == t,
{
    if x.len() < y.len() {
        assert((x + s)[x.len() as int] == s[0]);
        assert((y + t)[x.len() as int] == y[x.len() as int]);
        assert(false);
    }
    if y.len() < x.len() {
        assert((y + t)[y.len() as int] == t[0]);
        assert((x + s)[y.len() as int] == x[y.len() as int]);
        assert(false);
    }
    assert(x.len() == y.len());
    assert((x + s).len() == x.len() + s.len());
    assert((y + t).len() == y.len() + t.len());
    assert((x + s).len() == (y + t).len());
    assert(s.len() == t.len());
    assert forall|i: int| 0 <= i < x.len() implies x[i] == y[i] by {
        assert((x + s)[i] == x[i]);
        assert((y + t)[i] == y[i]);
    }
    assert(x =~= y);
    assert forall|i: int| 0 <= i < s.len() implies s[i] == t[i] by {
        assert((x + s)[x.len() + i] == s[i]);
        assert((y + t)[y.len() + i] == t[i]);
    }
    assert(s =~= t);
}

/// Extending a digit run on the right never shrinks its value.
pub proof fn lemma_parse_nat_prefix_le(s: Seq<char>, a: int, b: int, c: int)
    requires
        0 <= a <= b <= c <= s.len(),
        forall|i: int| a <= i < c ==> spec_is_digit(#[trigger] s[i]),
    ensures
        spec_parse_nat(s.subrange(a, b)) <= spec_parse_nat(s.subrange(a, c)),
    decreases c - b,
{
    if b < c {
        lemma_parse_nat_prefix_le(s, a, b, c - 1);
        let w = s.subrange(a, c);
        assert(w.drop_last() =~= s.subrange(a, c - 1));
        assert(w.last() == s[c - 1]);
        let v = spec_digit_val(w.last());
        assert(0 <= v <= 9);
        let p = spec_parse_nat(s.subrange(a, c - 1));
        assert(spec_parse_nat(w) == p * 10 + v);
        assert(p <= p * 10);
    }
}

/// A run of at most four digits denotes a number below ten thousand.
pub proof fn lemma_parse_nat_small(s: Seq<char>)
    requires
        s.len() <= 4,
        forall|i: int| 0 <= i < s.len() ==> spec_is_digit(#[trigger] s[i]),
    ensures
        s.len() <= 1 ==> spec_parse_nat(s) < 10,
        s.len() <= 2 ==> spec_parse_nat(s) < 100,
        s.len() <= 3 ==> spec_parse_nat(s) < 1000,
        spec_parse_nat(s) < 10000,
    decreases s.len(),
{
    if s.len() > 0 {
        assert(forall|i: int|
            0 <= i < s.drop_last().len() ==> spec_is_digit(#[trigger] s.drop_last()[i]));
        lemma_parse_nat_small(s.drop_last());
        assert(0 <= spec_digit_val(s.last()) <= 9);
    }
}

/// Parses a run of digit characters, refusing values beyond `i64::MAX`.
pub fn parse_digits(s: &str, from: usize, to: usize) -> (r: Option<u64>)
    requires
        from <= to <= s@.len(),
        forall|i: int| from <= i < to ==> spec_is_digit(#[trigger] s@[i]),
    ensures
        match r {
            Some(v) => v == spec_parse_nat(s@.subrange(from as int, to as int)) && v <= i64::MAX,
            None => spec_parse_nat(s@.subrange(from as int, to as int)) > i64::MAX,
        },
{
    let bound: u64 = i64::MAX as u64;
    let mut acc: u64 = 0;
    let mut i: usize = from;
    assert(s@.subrange(from as int, from as int) =~= Seq::<char>::empty());
    while i < to
        invariant
            from <= i <= to <= s@.len(),
            forall|j: int| from <= j < to ==> spec_is_digit(#[trigger] s@[j]),
            bound == i64::MAX,
            acc == spec_parse_nat(s@.subrange(from as int, i as int)),
            acc <= bound,
        decreases to - i,
    {
        let c = s.get_char(i);
        let d: u64 = ((c as u32) - 0x30) as u64;
        assert(d == spec_digit_val(c));
        proof {
            assert(s@.subrange(from as int, i + 1).drop_last() =~= s@.subrange(
                from as int,
                i as int,
            ));
            assert(s@.subrange(from as int, i + 1).last() == s@[i as int]);
        }
        if acc > (bound - d) / 10 {
            proof {
                vstd::arithmetic::div_mod::lemma_fundamental_div_mod((bound - d) as int, 10);
                vstd::arithmetic::div_mod::lemma_mod_division_less_than_divisor(
                    (bound - d) as int,
                    10,
                );
                assert(spec_parse_nat(s@.subrange(from as int, i + 1)) > i64::MAX);
                lemma_parse_nat_prefix_le(s@, from as int, i + 1, to as int);
            }
            return None;
        }
        proof {
            vstd::arithmetic::div_mod::lemma_fundamental_div_mod((bound - d) as int, 10);
            vstd::arithmetic::div_mod::lemma_mod_division_less_than_divisor((bound - d) as int, 10);
        }
        acc = acc * 10 + d;
        i = i + 1;
    }
    Some(acc)
}

/// Equal concatenations with the same front part have the same back part.
pub proof fn lemma_concat_cancel_left(a: Seq<char>, b: Seq<char>, c: Seq<char>)
    requires
        a + b == a + c,
    ensures
        b == c,
{
    assert((a + b).len() == a.len() + b.len());
    assert((a + c).len() == a.len() + c.len());
    assert(b.len() == c.len());
    assert forall|i: int| 0 <= i < b.len() implies b[i] == c[i] by {
        assert((a + b)[a.len() + i] == b[i]);
        assert((a + c)[a.len() + i] == c[i]);
    }
    assert(b =~= c);
}

/// The characters accepted in the path of a request target: the RFC 3986
/// path characters (unreserved, sub-delims, `:`, `@`, `/` and `%`).
pub open spec fn spec_is_path_char(c: char) -> bool {
    let u = c as u32;
    ||| 0x41 <= u <= 0x5a  // A-Z
    ||| 0x61 <= u <= 0x7a  // a-z
    ||| 0x30 <= u <= 0x39  // 0-9
    ||| c == '-' || c == '.' || c == '_' || c == '~'
    ||| c == '!' || c == '$' || c == '&' || c == '\'' || c == '(' || c == ')'
    ||| c == '*' || c == '+' || c == ',' || c == ';' || c == '='
    ||| c == ':' || c == '@' || c == '/' || c == '%'
}

/// The characters accepted in a query component: the path characters plus `?`.
pub open spec fn spec_is_query_char(c: char) -> bool {
    spec_is_path_char(c) || c == '?'
}

fn is_path_char(c: char) -> (r: bool)
    ensures
        r == spec_is_path_char(c),
{
    let u = c as u32;
    (0x41 <= u && u <= 0x5a) || (0x61 <= u && u <= 0x7a) || (0x30 <= u && u <= 0x39) || c == '-'
        || c == '.' || c == '_' || c == '~' || c == '!' || c == '$' || c == '&' || c == '\''
        || c == '(' || c == ')' || c == '*' || c == '+' || c == ',' || c == ';' || c == '='
        || c == ':' || c == '@' || c == '/' || c == '%'
}

/// Whether every character of `s` may stand in a request path.
pub open spec fn spec_path_valid(s: Seq<char>) -> bool {
    forall|i: int| 0 <= i < s.len() ==> spec_is_path_char(#[trigger] s[i])
}

/// Whether every character of `s` may stand in a query component.
pub open spec fn spec_query_valid(s: Seq<char>) -> bool {
    forall|i: int| 0 <= i < s.len() ==> spec_is_query_char(#[trigger] s[i])
}

/// Checks that `s` holds only path characters.
pub fn path_valid(s: &str) -> (r: bool)
    ensures
        r == spec_path_valid(s@),
{
    let len = s.unicode_len();
    let mut i: usize = 0;
    while i < len
        invariant
            i <= len,
            len == s@.len(),
            forall|j: int| 0 <= j < i ==> spec_is_path_char(#[trigger] s@[j]),
        decreases len - i,
    {
        if !is_path_char(s.get_char(i)) {
            return false;
        }
        i = i + 1;
    }
    true
}

/// Checks that `s` holds only query characters.
pub fn query_valid(s: &str) -> (r: bool)
    ensures
        r == spec_query_valid(s@),
{
    let len = s.unicode_len();
    let mut i: usize = 0;
    while i < len
        invariant
            i <= len,
            len == s@.len(),
            forall|j: int| 0 <= j < i ==> spec_is_query_char(#[trigger] s@[j]),
        decreases len - i,
    {
        let c = s.get_char(i);
        if !(is_path_char(c) || c == '?') {
            return false;
        }
        i = i + 1;
    }
    true
}

/// Whether `s` begins with `prefix`.
pub fn str_starts_with(s: &str, prefix: &str) -> (r: bool)
    ensures
        r == prefix@.is_prefix_of(s@),
{
    let n = prefix.unicode_len();
    let len = s.unicode_len();
    if n > len {
        return false;
    }
    let mut i: usize = 0;
    while i < n
        invariant
            i <= n,
            n == prefix@.len(),
            len == s@.len(),
            n <= len,
            forall|j: int| 0 <= j < i ==> s@[j] == prefix@[j],
        decreases n - i,
    {
        if s.get_char(i) != prefix.get_char(i) {
            assert(!prefix@.is_prefix_of(s@));
            return false;
        }
        i = i + 1;
    }
    assert(prefix@.is_prefix_of(s@)) by {
        assert(prefix@ =~= s@.subrange(0, n as int));
    }
    true
}

} // verus!
