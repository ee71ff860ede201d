//! Verified text helpers: decimal rendering of integers and a lexicographic
//! order on character sequences, used by the map containers and the trace
//! serializer.
use vstd::prelude::*;
use vstd::string::*;

verus! {

/// The character for a single decimal digit.
pub open spec fn digit_char(d: nat) -> char {
    if d == 0 {
        '0'
    } else if d == 1 {
        '1'
    } else if d == 2 {
        '2'
    } else if d == 3 {
        '3'
    } else if d == 4 {
        '4'
    } else if d == 5 {
        '5'
    } else if d == 6 {
        '6'
    } else if d == 7 {
        '7'
    } else if d == 8 {
        '8'
    } else {
        '9'
    }
}

/// Decimal rendering of a natural number, most significant digit first.
pub open spec fn dec_digits(n: nat) -> Seq<char>
    decreases n,
{
    if n < 10 {
        seq![digit_char(n)]
    } else {
        dec_digits(n / 10) + seq![digit_char(n % 10)]
    }
}

/// Decimal rendering of an integer: a leading minus sign for negatives.
pub open spec fn dec_int(i: int) -> Seq<char> {
    if i < 0 {
        seq!['-'] + dec_digits((-i) as nat)
    } else {
        dec_digits(i as nat)
    }
}

/// A single decimal digit as a string slice.
fn digit_str(d: u64) -> (r: &'static str)
    requires
        d < 10,
    ensures
        r@ == seq![digit_char(d as nat)],
{
    proof {
        reveal_strlit("0");
        reveal_strlit("1");
        reveal_strlit("2");
        reveal_strlit("3");
        reveal_strlit("4");
        reveal_strlit("5");
        reveal_strlit("6");
        reveal_strlit("7");
        reveal_strlit("8");
        reveal_strlit("9");
    }
    match d {
        0 => "0",
        1 => "1",
        2 => "2",
        3 => "3",
        4 => "4",
        5 => "5",
        6 => "6",
        7 => "7",
        8 => "8",
        _ => "9",
    }
}

/// Render a `u64` in decimal.
pub fn u64_to_dec(n: u64) -> (r: String)
    ensures
        r@ == dec_digits(n as nat),
    decreases n,
{
    if n < 10 {
        String::from_str(digit_str(n))
    } else {
        let mut s = u64_to_dec(n / 10);
        s.append(digit_str(n % 10));
        s
    }
}

/// Render an `i64` in decimal, with a minus sign for negative values.
pub fn i64_to_dec(n: i64) -> (r: String)
    ensures
        r@ == dec_int(n as int),
{
    if n < 0 {
        let magnitude: u64 = ((-(n as i128)) as u64);
        let mut s = String::from_str("-");
        proof {
            reveal_strlit("-");
        }
        s.append(u64_to_dec(magnitude).as_str());
        proof {
            assert(s@ =~= dec_int(n as int));
        }
        s
    } else {
        u64_to_dec(n as u64)
    }
}

/// Strict ordering of characters by Unicode scalar value.
pub open spec fn char_lt(a: char, b: char) -> bool {
    (a as u32) < (b as u32)
}

/// Strict lexicographic ordering of character sequences.
pub open spec fn lex_lt(a: Seq<char>, b: Seq<char>) -> bool
    decreases a.len(),
{
    if b.len() == 0 {
        false
    } else if a.len() == 0 {
        true
    } else if char_lt(a[0], b[0]) {
        true
    } else if a[0] == b[0] {
        lex_lt(a.drop_first(), b.drop_first())
    } else {
        false
    }
}

/// Characters with the same scalar value are the same character.
proof fn lemma_char_cast_inj(a: char, b: char)
    requires
        (a as u32) == (b as u32),
    ensures
        a == b,
{
    vstd::utf8::char_u32_cast(a, a as u32);
    vstd::utf8::char_u32_cast(b, b as u32);
}

/// The lexicographic order is irreflexive and asymmetric.
pub proof fn lemma_lex_lt_asym(a: Seq<char>, b: Seq<char>)
    requires
        lex_lt(a, b),
    ensures
        !lex_lt(b, a),
        a != b,
    decreases a.len(),
{
    if b.len() == 0 {
    } else if a.len() == 0 {
        assert(a != b);
    } else if char_lt(a[0], b[0]) {
        assert(a[0] != b[0]);
    } else {
        lemma_lex_lt_asym(a.drop_first(), b.drop_first());
        assert(a != b) by {
            if a == b {
                assert(a.drop_first() =~= b.drop_first());
            }
        }
    }
}

/// The lexicographic order is transitive.
pub proof fn lemma_lex_lt_trans(a: Seq<char>, b: Seq<char>, c: Seq<char>)
    requires
        lex_lt(a, b),
        lex_lt(b, c),
    ensures
        lex_lt(a, c),
    decreases a.len(),
{
    if a.len() == 0 {
        assert(b.len() > 0);
        assert(c.len() > 0);
    } else {
        assert(b.len() > 0 && c.len() > 0);
        if char_lt(a[0], b[0]) {
            if char_lt(b[0], c[0]) {
            } else {
                assert(b[0] == c[0]);
            }
        } else {
            assert(a[0] == b[0]);
            if char_lt(b[0], c[0]) {
            } else {
                assert(b[0] == c[0]);
                lemma_lex_lt_trans(a.drop_first(), b.drop_first(), c.drop_first());
            }
        }
    }
}

/// A difference at the first unequal position decides the order.
proof fn lemma_lex_from_diff(a: Seq<char>, b: Seq<char>, i: int)
    requires
        0 <= i < a.len(),
        i < b.len(),
        forall|j: int| 0 <= j < i ==> a[j] == b[j],
        char_lt(a[i], b[i]),
    ensures
        lex_lt(a, b),
    decreases i,
{
    if i == 0 {
    } else {
        lemma_lex_from_diff(a.drop_first(), b.drop_first(), i - 1);
    }
}

/// A proper prefix sorts before the longer sequence.
proof fn lemma_lex_from_prefix(a: Seq<char>, b: Seq<char>)
    requires
        a.len() < b.len(),
        forall|j: int| 0 <= j < a.len() ==> a[j] == b[j],
    ensures
        lex_lt(a, b),
    decreases a.len(),
{
    if a.len() == 0 {
    } else {
        lemma_lex_from_prefix(a.drop_first(), b.drop_first());
    }
}

/// Three-way comparison result for text keys.
pub enum KeyCmp {
    Less,
    Equal,
    Greater,
}

/// Three-way lexicographic comparison of two string slices.
pub fn str_compare(a: &str, b: &str) -> (r: KeyCmp)
    ensures
        r is Less <==> lex_lt(a@, b@),
        r is Equal <==> a@ == b@,
        r is Greater <==> lex_lt(b@, a@),
{
    let alen = a.unicode_len();
    let blen = b.unicode_len();
    let n = if alen < blen {
        alen
    } else {
        blen
    };
    let mut i: usize = 0;
    while i < n
        invariant
            0 <= i <= n,
            n <= a@.len() && n <= b@.len(),
            alen == a@.len() && blen == b@.len(),
            n == if alen < blen {
                alen
            } else {
                blen
            },
            forall|j: int| 0 <= j < i ==> a@[j] == b@[j],
        decreases n - i,
    {
        let ca = a.get_char(i);
        let cb = b.get_char(i);
        if (ca as u32) < (cb as u32) {
            proof {
                lemma_lex_from_diff(a@, b@, i as int);
                lemma_lex_lt_asym(a@, b@);
            }
            return KeyCmp::Less;
        }
        if (cb as u32) < (ca as u32) {
            proof {
                lemma_lex_from_diff(b@, a@, i as int);
                lemma_lex_lt_asym(b@, a@);
            }
            return KeyCmp::Greater;
        }
        proof {
            lemma_char_cast_inj(ca, cb);
        }
        i += 1;
    }
    if alen < blen {
        proof {
            lemma_lex_from_prefix(a@, b@);
            lemma_lex_lt_asym(a@, b@);
        }
        KeyCmp::Less
    } else if blen < alen {
        proof {
            lemma_lex_from_prefix(b@, a@);
            lemma_lex_lt_asym(b@, a@);
        }
        KeyCmp::Greater
    } else {
        proof {
            assert(a@ =~= b@);
            if lex_lt(a@, b@) {
                lemma_lex_lt_asym(a@, b@);
            }
        }
        KeyCmp::Equal
    }
}

/// Whether `p` is a prefix of `s`, compared by characters.
pub fn has_prefix(s: &str, p: &str) -> (r: bool)
    ensures
        r == p@.is_prefix_of(s@),
{
    let slen = s.unicode_len();
    let plen = p.unicode_len();
    if plen > slen {
        return false;
    }
    let mut i: usize = 0;
    while i < plen
        invariant
            0 <= i <= plen,
            plen <= slen,
            slen == s@.len() && plen == p@.len(),
            forall|j: int| 0 <= j < i ==> s@[j] == p@[j],
        decreases plen - i,
    {
        let cs = s.get_char(i);
        let cp = p.get_char(i);
        if (cs as u32) != (cp as u32) {
            proof {
                assert(s@[i as int] != p@[i as int]);
                assert(!p@.is_prefix_of(s@));
            }
            return false;
        }
        i += 1;
    }
    proof {
        assert(p@ =~= s@.subrange(0, p@.len() as int));
    }
    true
}

/// Whether the character is a decimal digit.
pub open spec fn is_dec_digit(c: char) -> bool {
    48 <= (c as u32) <= 57
}

/// The numeric value of a decimal digit character.
pub open spec fn digit_val(c: char) -> nat {
    ((c as u32) - 48) as nat
}

/// The numeric value of a sequence of decimal digits.
pub open spec fn dec_val(s: Seq<char>) -> nat
    decreases s.len(),
{
    if s.len() == 0 {
        0
    } else {
        dec_val(s.drop_last()) * 10 + digit_val(s.last())
    }
}

/// Whether the text is a decimal numeral that fits in a `u64`.
pub open spec fn valid_u64_text(s: Seq<char>) -> bool {
    &&& s.len() > 0
    &&& forall|i: int| 0 <= i < s.len() ==> is_dec_digit(#[trigger] s[i])
    &&& dec_val(s) <= u64::MAX
}

/// A longer digit prefix never shrinks the value.
proof fn lemma_dec_val_mono(s: Seq<char>, i: int)
    requires
        0 <= i <= s.len(),
    ensures
        dec_val(s.take(i)) <= dec_val(s),
    decreases s.len() - i,
{
    if i == s.len() {
        assert(s.take(i) =~= s);
    } else {
        lemma_dec_val_mono(s, i + 1);
        let t = s.take(i + 1);
        assert(t.drop_last() =~= s.take(i));
        assert(dec_val(s.take(i)) <= dec_val(t));
    }
}

/// Parse a decimal numeral into a `u64`.
///
/// Returns `None` exactly when the text is empty, holds a character other
/// than a decimal digit, or encodes a value above `u64::MAX`.
pub fn parse_u64(s: &str) -> (r: Option<u64>)
    ensures
        match r {
            Some(v) => valid_u64_text(s@) && v == dec_val(s@),
            None => !valid_u64_text(s@),
        },
{
    let n = s.unicode_len();
    if n == 0 {
        return None;
    }
    let mut value: u64 = 0;
    let mut i: usize = 0;
    while i < n
        invariant
            0 <= i <= n,
            n == s@.len(),
            forall|j: int| 0 <= j < i ==> is_dec_digit(#[trigger] s@[j]),
            value == dec_val(s@.take(i as int)),
        decreases n - i,
    {
        let c = s.get_char(i);
        let code = c as u32;
        if code < 48 || code > 57 {
            return None;
        }
        let d: u64 = (code - 48) as u64;
        if value > (u64::MAX - d) / 10 {
            proof {
                let t = s@.take(i as int + 1);
                assert(t.drop_last() =~= s@.take(i as int));
                assert(t.last() == s@[i as int]);
                assert(dec_val(t) == value * 10 + d);
                lemma_dec_val_mono(s@, i as int + 1);
                assert(dec_val(s@) > u64::MAX);
            }
            return None;
        }
        proof {
            let t = s@.take(i as int + 1);
            assert(t.drop_last() =~= s@.take(i as int));
            assert(t.last() == s@[i as int]);
        }
        value = value * 10 + d;
        i += 1;
    }
    proof {
        assert(s@.take(n as int) =~= s@);
    }
    Some(value)
}

/// The text for a boolean value.
pub open spec fn bool_text(b: bool) -> Seq<char> {
    if b {
        seq!['t', 'r', 'u', 'e']
    } else {
        seq!['f', 'a', 'l', 's', 'e']
    }
}

/// Render a boolean as `true` or `false`.
pub fn bool_to_text(b: bool) -> (r: &'static str)
    ensures
        r@ == bool_text(b),
{
    proof {
        reveal_strlit("true");
        reveal_strlit("false");
    }
    if b {
        proof {
            assert("true"@ =~= bool_text(true));
        }
        "true"
    } else {
        proof {
            assert("false"@ =~= bool_text(false));
        }
        "false"
    }
}

/// A number rendered as exactly `width` decimal digits, zero padded.
pub open spec fn pad_digits(n: nat, width: nat) -> Seq<char>
    decreases width,
{
    if width == 0 {
        Seq::<char>::empty()
    } else {
        pad_digits(n / 10, (width - 1) as nat) + seq![digit_char(n % 10)]
    }
}

/// The sequence with every trailing `'0'` removed.
pub open spec fn strip_zeros(s: Seq<char>) -> Seq<char>
    decreases s.len(),
{
    if s.len() > 0 && s.last() == '0' {
        strip_zeros(s.drop_last())
    } else {
        s
    }
}

/// Render `width` zero-padded decimal digits of `n`.
fn pad_to_dec(n: u64, width: u64) -> (r: String)
    ensures
        r@ == pad_digits(n as nat, width as nat),
    decreases width,
{
    if width == 0 {
        let r = String::new();
        proof {
            assert(r@ =~= pad_digits(n as nat, 0));
        }
        r
    } else {
        let mut s = pad_to_dec(n / 10, width - 1);
        s.append(digit_str(n % 10));
        s
    }
}

/// The fractional part of a duration: nine zero-padded digits of a
/// nanosecond remainder with trailing zeros removed.
pub open spec fn frac_text(f: nat) -> Seq<char> {
    strip_zeros(pad_digits(f, 9))
}

/// Render the fractional digits of a sub-second nanosecond count.
pub fn frac_to_dec(f: u64) -> (r: String)
    requires
        0 < f < 1_000_000_000,
    ensures
        r@ == frac_text(f as nat),
{
    proof {
        assert(pow10(9) == 1_000_000_000) by {
            reveal_with_fuel(pow10, 10);
        }
    }
    let mut rest: u64 = f;
    let mut width: u64 = 9;
    while rest % 10 == 0
        invariant
            0 < rest,
            0 < width <= 9,
            strip_zeros(pad_digits(rest as nat, width as nat)) == frac_text(f as nat),
            rest < pow10(width as nat),
        decreases width,
    {
        proof {
            assert(width > 1) by {
                if width == 1 {
                    assert(pow10(1) == 10) by {
                        reveal_with_fuel(pow10, 2);
                    }
                }
            }
            assert(pad_digits(rest as nat, width as nat).drop_last() =~= pad_digits(
                (rest / 10) as nat,
                (width - 1) as nat,
            ));
            assert(pad_digits(rest as nat, width as nat).last() == digit_char(
                (rest % 10) as nat,
            ));
            lemma_pow10_bound(rest as nat, width as nat);
        }
        rest = rest / 10;
        width = width - 1;
    }
    proof {
        let padded = pad_digits(rest as nat, width as nat);
        assert(padded.last() == digit_char((rest % 10) as nat));
        assert(digit_char((rest % 10) as nat) != '0');
        assert(strip_zeros(padded) == padded);
    }
    pad_to_dec(rest, width)
}

/// Ten to the given power.
pub open spec fn pow10(k: nat) -> nat
    decreases k,
{
    if k == 0 {
        1
    } else {
        10 * pow10((k - 1) as nat)
    }
}

/// Dividing by ten steps the power-of-ten bound down.
proof fn lemma_pow10_bound(n: nat, k: nat)
    requires
        k > 0,
        n < pow10(k),
    ensures
        n / 10 < pow10((k - 1) as nat),
{
    assert(pow10(k) == 10 * pow10((k - 1) as nat));
    assert(n < 10 * pow10((k - 1) as nat));
    assert(n / 10 < pow10((k - 1) as nat)) by (nonlinear_arith)
        requires
            n < 10 * pow10((k - 1) as nat),
    ;
}

} // verus!
