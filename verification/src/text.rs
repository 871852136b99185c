use vstd::prelude::*;

verus! {

/// `String::push` appends one character.
pub assume_specification[ std::string::String::push ](s: &mut String, ch: char)
    ensures
        final(s)@ == old(s)@.push(ch),
;

/// The lower-case hexadecimal digit of `n` (which is below 16).
pub open spec fn hex_digit(n: int) -> char {
    if n < 10 {
        (n + 48) as char
    } else {
        (n + 87) as char
    }
}

/// The lower-case hexadecimal text of `bytes`: two digits per byte,
/// high nibble first.
pub open spec fn hex_lower(bytes: Seq<u8>) -> Seq<char> {
    Seq::new(
        2 * bytes.len(),
        |i: int|
            if i % 2 == 0 {
                hex_digit((bytes[i / 2] / 16) as int)
            } else {
                hex_digit((bytes[i / 2] % 16) as int)
            },
    )
}

/// Executable counterpart of `hex_digit`.
pub fn hex_digit_char(n: u8) -> (c: char)
    requires
        n < 16,
    ensures
        c == hex_digit(n as int),
{
    if n < 10 {
        ((n + 48) as char)
    } else {
        ((n + 87) as char)
    }
}

/// Appends the lower-case hexadecimal text of `bytes` to `out`.
pub fn push_hex(out: &mut String, bytes: &[u8])
    ensures
        final(out)@ == old(out)@ + hex_lower(bytes@),
{
    let n = bytes.len();
    let ghost start = out@;
    let mut i: usize = 0;
    while i < n
        invariant
            n == bytes@.len(),
            i <= n,
            out@.len() == start.len() + 2 * i,
            forall|j: int| 0 <= j < start.len() ==> out@[j] == start[j],
            forall|j: int| 0 <= j < 2 * i ==> out@[start.len() + j] == hex_lower(bytes@)[j],
        decreases n - i,
    {
        let b = bytes[i];
        out.push(hex_digit_char(b / 16));
        out.push(hex_digit_char(b % 16));
        proof {
            assert(hex_lower(bytes@)[2 * i as int] == hex_digit((bytes@[i as int] / 16) as int));
            assert((2 * i + 1) as int / 2 == i as int);
            assert(hex_lower(bytes@)[2 * i + 1] == hex_digit((bytes@[i as int] % 16) as int));
        }
        i = i + 1;
    }
    assert(out@ =~= start + hex_lower(bytes@));
}

} // verus!

verus! {

/// The decimal text of `n`, most significant digit first, no leading zeros.
pub open spec fn decimal(n: nat) -> Seq<char>
    decreases n,
{
    if n < 10 {
        seq![hex_digit(n as int)]
    } else {
        decimal(n / 10).push(hex_digit((n % 10) as int))
    }
}

/// Appends the decimal text of `n` to `out`.
pub fn push_decimal(out: &mut String, n: u128)
    ensures
        final(out)@ == old(out)@ + decimal(n as nat),
    decreases n,
{
    if n >= 10 {
        push_decimal(out, n / 10);
    }
    let d: u8 = (n % 10) as u8;
    out.push(hex_digit_char(d));
    assert(out@ =~= old(out)@ + decimal(n as nat));
}

} // verus!

verus! {

/// Distinct digits have distinct characters.
pub proof fn lemma_hex_digit_injective(x: int, y: int)
    requires
        0 <= x < 16,
        0 <= y < 16,
        hex_digit(x) == hex_digit(y),
    ensures
        x == y,
{
    let cx = hex_digit(x);
    let cy = hex_digit(y);
    assert(cx as int == (if x < 10 { x + 48 } else { x + 87 }));
    assert(cy as int == (if y < 10 { y + 48 } else { y + 87 }));
}

/// Hexadecimal text determines the bytes it was made from.
pub proof fn lemma_hex_lower_injective(a: Seq<u8>, b: Seq<u8>)
    requires
        hex_lower(a) == hex_lower(b),
    ensures
        a == b,
{
    assert(hex_lower(a).len() == 2 * a.len());
    assert(a.len() == b.len());
    assert forall|i: int| 0 <= i < a.len() implies a[i] == b[i] by {
        assert(hex_lower(a)[2 * i] == hex_lower(b)[2 * i]);
        assert(hex_lower(a)[2 * i + 1] == hex_lower(b)[2 * i + 1]);
        assert((2 * i) % 2 == 0 && (2 * i) / 2 == i);
        assert((2 * i + 1) % 2 == 1 && (2 * i + 1) / 2 == i);
        assert(hex_lower(a)[2 * i] == hex_digit((a[i] / 16) as int));
        assert(hex_lower(b)[2 * i] == hex_digit((b[i] / 16) as int));
        assert(hex_lower(a)[2 * i + 1] == hex_digit((a[i] % 16) as int));
        assert(hex_lower(b)[2 * i + 1] == hex_digit((b[i] % 16) as int));
        lemma_hex_digit_injective((a[i] / 16) as int, (b[i] / 16) as int);
        lemma_hex_digit_injective((a[i] % 16) as int, (b[i] % 16) as int);
    }
    assert(a =~= b);
}

/// Whether `c` is a lower-case hexadecimal digit: `0`-`9` or `a`-`f`.
pub open spec fn is_lower_hex_digit(c: char) -> bool {
    ('0' as int <= c as int && c as int <= '9' as int) || ('a' as int <= c as int && c as int <= 'f' as int)
}

/// The value of a hexadecimal digit.
pub open spec fn hex_digit_value(c: char) -> int {
    if c as int <= '9' as int {
        c as int - '0' as int
    } else {
        c as int - 'a' as int + 10
    }
}

/// Hexadecimal text reads back as its bytes: two lower-case digits per
/// byte, high nibble first, whose value is the byte.
pub proof fn law_hex_lower_reads_back(bytes: Seq<u8>)
    ensures
        hex_lower(bytes).len() == 2 * bytes.len(),
        forall|i: int| 0 <= i < bytes.len() ==> is_lower_hex_digit(#[trigger] hex_lower(bytes)[2 * i])
            && is_lower_hex_digit(hex_lower(bytes)[2 * i + 1])
            && 16 * hex_digit_value(hex_lower(bytes)[2 * i]) + hex_digit_value(hex_lower(bytes)[2 * i + 1]) == bytes[i],
{
    assert forall|i: int| 0 <= i < bytes.len() implies is_lower_hex_digit(#[trigger] hex_lower(bytes)[2 * i])
        && is_lower_hex_digit(hex_lower(bytes)[2 * i + 1])
        && 16 * hex_digit_value(hex_lower(bytes)[2 * i]) + hex_digit_value(hex_lower(bytes)[2 * i + 1]) == bytes[i] by {
        assert((2 * i) % 2 == 0 && (2 * i) / 2 == i);
        assert((2 * i + 1) % 2 == 1 && (2 * i + 1) / 2 == i);
        let hi = (bytes[i] / 16) as int;
        let lo = (bytes[i] % 16) as int;
        assert(hex_lower(bytes)[2 * i] == hex_digit(hi));
        assert(hex_lower(bytes)[2 * i + 1] == hex_digit(lo));
        assert(hex_digit(hi) as int == (if hi < 10 { hi + 48 } else { hi + 87 }));
        assert(hex_digit(lo) as int == (if lo < 10 { lo + 48 } else { lo + 87 }));
        assert(16 * hi + lo == bytes[i]);
    }
}

/// The value of decimal digits, most significant first.
pub open spec fn decimal_value(digits: Seq<char>) -> int
    decreases digits.len(),
{
    if digits.len() == 0 {
        0
    } else {
        10 * decimal_value(digits.drop_last()) + (digits.last() as int - '0' as int)
    }
}

/// Decimal text reads back as its number: it is made of the digits `0`-`9`,
/// has no leading zero (but for zero itself), and its value is the number.
pub proof fn law_decimal_reads_back(n: nat)
    ensures
        decimal(n).len() > 0,
        forall|i: int| 0 <= i < decimal(n).len() ==> '0' as int <= #[trigger] decimal(n)[i] as int <= '9' as int,
        decimal(n)[0] == '0' ==> n == 0,
        decimal_value(decimal(n)) == n,
    decreases n,
{
    if n < 10 {
        assert(hex_digit(n as int) as int == n + 48);
        assert(decimal(n) =~= seq![hex_digit(n as int)]);
        assert(decimal(n).drop_last() =~= Seq::<char>::empty());
        assert(decimal_value(Seq::<char>::empty()) == 0);
        assert(decimal_value(decimal(n)) == 10 * decimal_value(decimal(n).drop_last()) + (decimal(n).last() as int - '0' as int));
    } else {
        law_decimal_reads_back(n / 10);
        let d = (n % 10) as int;
        assert(hex_digit(d) as int == d + 48);
        let s = decimal(n);
        assert(s == decimal(n / 10).push(hex_digit(d)));
        assert(s.drop_last() =~= decimal(n / 10));
        assert forall|i: int| 0 <= i < s.len() implies '0' as int <= #[trigger] s[i] as int <= '9' as int by {
            if i < s.len() - 1 {
                assert(s[i] == decimal(n / 10)[i]);
            }
        }
        assert(s[0] == decimal(n / 10)[0]);
        assert(n / 10 > 0);
        assert(s.last() == hex_digit(d));
        assert(decimal_value(s) == 10 * decimal_value(s.drop_last()) + (s.last() as int - '0' as int));
        assert(10 * (n / 10) + d == n);
    }
}

/// A string holding `chars`.
pub fn string_from_chars(chars: &[char]) -> (s: String)
    ensures
        s@ == chars@,
{
    let mut s = String::new();
    let n = chars.len();
    let mut i: usize = 0;
    while i < n
        invariant
            n == chars@.len(),
            i <= n,
            s@ == chars@.take(i as int),
        decreases n - i,
    {
        s.push(chars[i]);
        assert(chars@.take(i + 1) =~= chars@.take(i as int).push(chars@[i as int]));
        i = i + 1;
    }
    assert(chars@.take(n as int) =~= chars@);
    s
}

} // verus!
