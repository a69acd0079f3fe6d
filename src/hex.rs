//! Hexadecimal text of 64-bit indexes.
use vstd::prelude::*;

verus! {

broadcast use vstd::utf8::char_u32_cast;

/// `c` is one of `0-9`, `a-f`, `A-F`.
pub open spec fn is_hex_char(c: char) -> bool {
    let u = c as u32;
    (48 <= u <= 57) || (97 <= u <= 102) || (65 <= u <= 70)
}

/// The value of a hexadecimal digit.
pub open spec fn hex_char_value(c: char) -> nat {
    let u = c as u32;
    if u <= 57 {
        (u - 48) as nat
    } else if u >= 97 {
        (u - 87) as nat
    } else {
        (u - 55) as nat
    }
}

/// The lowercase form of a hexadecimal digit.
pub open spec fn lower_hex_char(c: char) -> char {
    let u = c as u32;
    if 65 <= u <= 70 {
        ((u + 32) as u32) as char
    } else {
        c
    }
}

/// The lowercase digit for a value below 16.
pub open spec fn hex_digit_char(d: nat) -> char {
    if d < 10 {
        ((d + 48) as u32) as char
    } else {
        ((d + 87) as u32) as char
    }
}

/// Text accepted as an index: one to sixteen hexadecimal digits.
pub open spec fn is_hex_text(s: Seq<char>) -> bool {
    &&& 1 <= s.len() <= 16
    &&& forall|i: int| 0 <= i < s.len() ==> is_hex_char(#[trigger] s[i])
}

/// The number that hexadecimal digits write, most significant first.
pub open spec fn hex_value(s: Seq<char>) -> nat
    decreases s.len(),
{
    if s.len() == 0 {
        0
    } else {
        hex_value(s.drop_last()) * 16 + hex_char_value(s.last())
    }
}

/// The lowercase hexadecimal text of `n`, without leading zeros.
pub open spec fn hex_text(n: nat) -> Seq<char>
    decreases n,
{
    if n < 16 {
        seq![hex_digit_char(n)]
    } else {
        hex_text(n / 16).push(hex_digit_char(n % 16))
    }
}

/// How many leading zeros can be dropped from `s`, keeping at least one digit.
pub open spec fn leading_zeros(s: Seq<char>) -> nat
    decreases s.len(),
{
    if s.len() > 1 && s[0] == '0' {
        1 + leading_zeros(s.drop_first())
    } else {
        0
    }
}

/// The canonical form of hexadecimal text: lowercase, leading zeros removed.
pub open spec fn canonical_hex(s: Seq<char>) -> Seq<char> {
    s.skip(leading_zeros(s) as int).map_values(|c: char| lower_hex_char(c))
}

pub open spec fn pow16(n: nat) -> nat
    decreases n,
{
    if n == 0 {
        1
    } else {
        16 * pow16((n - 1) as nat)
    }
}

proof fn lemma_pow16_mono(a: nat, b: nat)
    requires
        a <= b,
    ensures
        pow16(a) <= pow16(b),
    decreases b,
{
    if a < b {
        lemma_pow16_mono(a, (b - 1) as nat);
    }
}

proof fn lemma_hex_value_bound(s: Seq<char>)
    requires
        forall|i: int| 0 <= i < s.len() ==> is_hex_char(#[trigger] s[i]),
    ensures
        hex_value(s) < pow16(s.len()),
    decreases s.len(),
{
    if s.len() > 0 {
        let t = s.drop_last();
        assert forall|i: int| 0 <= i < t.len() implies is_hex_char(#[trigger] t[i]) by {
            assert(t[i] == s[i]);
        }
        lemma_hex_value_bound(t);
        assert(is_hex_char(s[s.len() - 1]));
        assert(hex_char_value(s.last()) < 16);
        assert(pow16(s.len()) == 16 * pow16(t.len()));
    }
}

/// Reads one to sixteen hexadecimal digits (either case) as a 64-bit number.
pub fn parse_hex(text: &str) -> (r: Option<u64>)
    ensures
        r is Some <==> is_hex_text(text@),
        r matches Some(v) ==> v == hex_value(text@),
{
    let n = text.unicode_len();
    if n == 0 || n > 16 {
        return None;
    }
    let mut v: u64 = 0;
    let mut i: usize = 0;
    while i < n
        invariant
            n == text@.len(),
            1 <= n <= 16,
            i <= n,
            forall|j: int| 0 <= j < i ==> is_hex_char(#[trigger] text@[j]),
            v == hex_value(text@.take(i as int)),
            v < pow16(i as nat),
        decreases n - i,
    {
        let c = text.get_char(i);
        let u = c as u32;
        let d: u64;
        if 48 <= u && u <= 57 {
            d = (u - 48) as u64;
        } else if 97 <= u && u <= 102 {
            d = (u - 87) as u64;
        } else if 65 <= u && u <= 70 {
            d = (u - 55) as u64;
        } else {
            assert(!is_hex_char(text@[i as int]));
            return None;
        }
        let ghost t = text@.take(i as int + 1);
        assert(t.drop_last() =~= text@.take(i as int));
        assert(t.last() == c);
        proof {
            lemma_pow16_mono(i as nat, 15);
            reveal_with_fuel(pow16, 16);
            assert(pow16(15) == 0x1000_0000_0000_0000);
        }
        v = v * 16 + d;
        i = i + 1;
    }
    assert(text@.take(n as int) =~= text@);
    Some(v)
}


/// The characters for hexadecimal digits `ds`, written in reverse order.
pub open spec fn reversed_digits(ds: Seq<u8>) -> Seq<char> {
    Seq::new(ds.len(), |j: int| hex_digit_char(ds[ds.len() - 1 - j] as nat))
}

/// Writes `v` as lowercase hexadecimal text without leading zeros.
pub fn format_hex(v: u64) -> (r: String)
    ensures
        r@ == hex_text(v as nat),
{
    let mut digits: Vec<u8> = Vec::new();
    let mut n: u64 = v;
    proof {
        reveal_with_fuel(pow16, 17);
        assert(pow16(16) == 0x1_0000_0000_0000_0000);
    }
    loop
        invariant_except_break
            hex_text(v as nat) == hex_text(n as nat) + reversed_digits(digits@),
            digits.len() <= 16,
            n < pow16((16 - digits.len()) as nat),
            digits.len() > 0 ==> n > 0,
        invariant
            forall|j: int| 0 <= j < digits.len() ==> #[trigger] digits[j] < 16,
        ensures
            hex_text(v as nat) == reversed_digits(digits@),
        decreases n,
    {
        let d = (n % 16) as u8;
        let ghost old_n = n;
        let ghost old_digits = digits@;
        proof {
            lemma_pow16_mono(0, (16 - digits.len()) as nat);
        }
        digits.push(d);
        n = n / 16;
        proof {
            assert(reversed_digits(digits@) =~= seq![hex_digit_char(d as nat)] + reversed_digits(
                old_digits,
            ));
            if old_n >= 16 {
                assert(hex_text(old_n as nat) == hex_text(n as nat).push(hex_digit_char(d as nat)));
            }
            assert((if n > 0 { hex_text(n as nat) } else { seq![] }) + seq![hex_digit_char(d as nat)]
                =~= hex_text(old_n as nat));
            if old_digits.len() == 16 {
                assert(pow16(0) == 1);
                assert(false);
            }
            let p = pow16((16 - digits.len()) as nat);
            assert(pow16((16 - old_digits.len()) as nat) == 16 * p);
            assert(n < p) by (nonlinear_arith)
                requires
                    old_n < 16 * p,
                    n == old_n / 16,
            ;
        }
        if n == 0 {
            break ;
        }
    }
    assert(hex_text(v as nat) =~= reversed_digits(digits@));
    let table = "0123456789abcdef";
    proof {
        reveal_strlit("0123456789abcdef");
    }
    assert(table@ =~= seq!['0', '1', '2', '3', '4', '5', '6', '7', '8', '9', 'a', 'b', 'c', 'd', 'e', 'f']);
    assert(forall|d: nat| d < 16 ==> #[trigger] hex_digit_char(d) == table@[d as int]);
    let mut out = String::new();
    let mut i: usize = digits.len();
    while i > 0
        invariant
            i <= digits.len(),
            forall|j: int| 0 <= j < digits.len() ==> #[trigger] digits[j] < 16,
            table.is_ascii(),
            table@.len() == 16,
            forall|d: nat| d < 16 ==> #[trigger] hex_digit_char(d) == table@[d as int],
            out@ =~= reversed_digits(digits@).take(digits.len() - i),
        decreases i,
    {
        i = i - 1;
        let d = digits[i] as usize;
        let piece = table.substring_ascii(d, d + 1);
        out.append(piece);
        assert(out@ =~= reversed_digits(digits@).take(digits.len() - i));
    }
    assert(out@ =~= reversed_digits(digits@));
    out
}


proof fn lemma_drop_zero(s: Seq<char>)
    requires
        s.len() > 1,
        s[0] == '0',
    ensures
        hex_value(s) == hex_value(s.drop_first()),
    decreases s.len(),
{
    let t = s.drop_last();
    if s.len() == 2 {
        assert(hex_value(t.drop_last()) == 0);
        assert(t.last() == s[0]);
        assert(hex_value(t) == 0);
        let w = s.drop_first();
        assert(hex_value(w.drop_last()) == 0);
        assert(w.last() == s.last());
        assert(hex_value(w) == hex_char_value(s.last()));
    } else {
        lemma_drop_zero(t);
        assert(s.drop_first().drop_last() =~= t.drop_first());
    }
}

proof fn lemma_skip_zeros(s: Seq<char>)
    ensures
        leading_zeros(s) < s.len() || s.len() == 0,
        hex_value(s) == hex_value(s.skip(leading_zeros(s) as int)),
        s.len() > 0 ==> (s.skip(leading_zeros(s) as int).len() == 1 || s[leading_zeros(s) as int] != '0'),
    decreases s.len(),
{
    if s.len() > 1 && s[0] == '0' {
        let t = s.drop_first();
        lemma_skip_zeros(t);
        lemma_drop_zero(s);
        assert(s.skip(leading_zeros(s) as int) =~= t.skip(leading_zeros(t) as int));
        assert(s[leading_zeros(s) as int] == t[leading_zeros(t) as int]);
    } else {
        assert(s.skip(0) =~= s);
    }
}

proof fn lemma_hex_value_positive(u: Seq<char>)
    requires
        u.len() >= 1,
        forall|i: int| 0 <= i < u.len() ==> is_hex_char(#[trigger] u[i]),
        u[0] != '0',
    ensures
        hex_value(u) >= 1,
        u.len() > 1 ==> hex_value(u) >= 16,
    decreases u.len(),
{
    let t = u.drop_last();
    if u.len() == 1 {
        assert(hex_value(t) == 0);
        assert(u.last() == u[0]);
        assert(is_hex_char(u[0]));
        if u[0] as u32 == 48 {
            vstd::utf8::char_u32_cast(u[0], 48);
            vstd::utf8::char_u32_cast('0', 48);
        }
    } else {
        assert forall|i: int| 0 <= i < t.len() implies is_hex_char(#[trigger] t[i]) by {
            assert(t[i] == u[i]);
        }
        assert(t[0] == u[0]);
        lemma_hex_value_positive(t);
        assert(hex_value(u) == hex_value(t) * 16 + hex_char_value(u.last()));
    }
}

proof fn lemma_text_of_digits(u: Seq<char>)
    requires
        u.len() >= 1,
        forall|i: int| 0 <= i < u.len() ==> is_hex_char(#[trigger] u[i]),
        u.len() == 1 || u[0] != '0',
    ensures
        hex_text(hex_value(u)) == u.map_values(|c: char| lower_hex_char(c)),
    decreases u.len(),
{
    let t = u.drop_last();
    let c = u.last();
    assert(is_hex_char(u[u.len() - 1]));
    let d = hex_char_value(c);
    assert(d < 16);
    assert(hex_digit_char(d) == lower_hex_char(c));
    if u.len() == 1 {
        assert(hex_value(t) == 0);
        assert(hex_value(u) == d);
        assert(u.map_values(|c: char| lower_hex_char(c)) =~= seq![lower_hex_char(c)]);
    } else {
        assert forall|i: int| 0 <= i < t.len() implies is_hex_char(#[trigger] t[i]) by {
            assert(t[i] == u[i]);
        }
        assert(t[0] == u[0]);
        lemma_text_of_digits(t);
        lemma_hex_value_positive(t);
        let a = hex_value(t);
        let n = hex_value(u);
        assert(n == a * 16 + d);
        assert(n / 16 == a && n % 16 == d) by (nonlinear_arith)
            requires
                n == a * 16 + d,
                d < 16,
        ;
        assert(u.map_values(|c: char| lower_hex_char(c)) =~= t.map_values(
            |c: char| lower_hex_char(c),
        ).push(lower_hex_char(c)));
    }
}

/// Reading hexadecimal text and writing the number back yields the text's canonical
/// form: lowercase, without leading zeros.
pub proof fn law_hex_round_trip(s: Seq<char>)
    requires
        is_hex_text(s),
    ensures
        hex_text(hex_value(s)) == canonical_hex(s),
{
    lemma_skip_zeros(s);
    let u = s.skip(leading_zeros(s) as int);
    assert forall|i: int| 0 <= i < u.len() implies is_hex_char(#[trigger] u[i]) by {
        assert(u[i] == s[i + leading_zeros(s)]);
    }
    lemma_text_of_digits(u);
}

/// Writing a number and reading the text back yields the number.
pub proof fn law_hex_text_value(n: nat)
    ensures
        hex_value(hex_text(n)) == n,
        forall|i: int| 0 <= i < hex_text(n).len() ==> is_hex_char(#[trigger] hex_text(n)[i]),
    decreases n,
{
    if n < 16 {
        let w = seq![hex_digit_char(n)];
        assert(hex_value(w.drop_last()) == 0);
        assert(w.last() == hex_digit_char(n));
        assert(hex_char_value(hex_digit_char(n)) == n);
    } else {
        law_hex_text_value(n / 16);
        let t = hex_text(n / 16);
        let w = hex_text(n);
        assert(w.drop_last() =~= t);
        assert(w.last() == hex_digit_char(n % 16));
        assert(hex_char_value(hex_digit_char(n % 16)) == n % 16);
        assert(hex_value(w) == hex_value(t) * 16 + n % 16);
        assert forall|i: int| 0 <= i < hex_text(n).len() implies is_hex_char(#[trigger] hex_text(n)[i]) by {
            if i < t.len() {
                assert(hex_text(n)[i] == t[i]);
            }
        }
    }
}


proof fn lemma_hex_text_len(n: nat, k: nat)
    requires
        k >= 1,
        n < pow16(k),
    ensures
        hex_text(n).len() <= k,
    decreases k,
{
    if n >= 16 {
        assert(k > 1) by {
            if k == 1 {
                assert(pow16(1) == 16 * pow16(0));
            }
        }
        let p = pow16((k - 1) as nat);
        assert(pow16(k) == 16 * p);
        assert(n / 16 < p) by (nonlinear_arith)
            requires
                n < 16 * p,
        ;
        lemma_hex_text_len(n / 16, (k - 1) as nat);
    }
}

/// The text of any 64-bit number is hexadecimal text that reads back as the number.
pub proof fn law_hex_text_of_u64(v: u64)
    ensures
        is_hex_text(hex_text(v as nat)),
        hex_value(hex_text(v as nat)) == v,
{
    law_hex_text_value(v as nat);
    reveal_with_fuel(pow16, 17);
    assert(pow16(16) == 0x1_0000_0000_0000_0000);
    lemma_hex_text_len(v as nat, 16);
}

} // verus!
