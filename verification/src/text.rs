//! Text building blocks: decimal numbers, characters of a string, lines.
//!
//! Strings are modelled by their view, a sequence of characters.

use vstd::prelude::*;
use vstd::string::StringExecFns;

verus! {

/// `String::push` appends one character to the end of the string.
pub assume_specification[ String::push ](s: &mut String, c: char)
    ensures
        final(s)@ == old(s)@.push(c),
;

/// The decimal digit `d`, for `d < 10`.
pub open spec fn digit_char(d: nat) -> char {
    (48 + d) as char
}

/// The decimal text of `n`: no sign, no leading zeros, `"0"` for zero.
pub open spec fn digits(n: nat) -> Seq<char>
    decreases n,
{
    if n < 10 {
        seq![digit_char(n)]
    } else {
        digits(n / 10).push(digit_char(n % 10))
    }
}

/// The decimal text of `i`, with a leading `-` where it is negative.
pub open spec fn signed_digits(i: int) -> Seq<char> {
    if i < 0 {
        seq!['-'] + digits((-i) as nat)
    } else {
        digits(i as nat)
    }
}

/// Append the decimal text of `n`.
pub fn push_decimal(out: &mut String, n: u128)
    ensures
        final(out)@ == old(out)@ + digits(n as nat),
    decreases n,
{
    if n >= 10 {
        push_decimal(out, n / 10);
    }
    let d: u8 = (n % 10) as u8;
    let c: char = (48u8 + d) as char;
    assert(c == digit_char((n as nat) % 10));
    out.push(c);
    assert(out@ =~= old(out)@ + digits(n as nat));
}

/// Append the decimal text of the signed `i`.
pub fn push_signed_decimal(out: &mut String, i: i64)
    ensures
        final(out)@ == old(out)@ + signed_digits(i as int),
{
    if i < 0 {
        out.push('-');
        let magnitude: u128 = (-(i as i128)) as u128;
        push_decimal(out, magnitude);
        assert(out@ =~= old(out)@ + signed_digits(i as int));
    } else {
        push_decimal(out, i as u128);
    }
}

/// The decimal text of `n` as a string of its own.
pub fn decimal(n: u64) -> (s: String)
    ensures
        s@ == digits(n as nat),
{
    let mut s = String::new();
    push_decimal(&mut s, n as u128);
    assert(s@ =~= digits(n as nat));
    s
}

/// The characters of `s`, one by one.
pub fn chars_of(s: &str) -> (v: Vec<char>)
    ensures
        v@ == s@,
{
    let mut v: Vec<char> = Vec::new();
    for c in it: s.chars()
        invariant
            it.seq() == s@,
            v@ == s@.take(it.index() as int),
    {
        v.push(c);
        assert(v@ =~= s@.take(it.index() as int + 1));
    }
    assert(s@.take(s@.len() as int) =~= s@);
    v
}

/// An IPv4 endpoint as `a.b.c.d:port`.
pub open spec fn addr_text(ip: u32, port: u16) -> Seq<char> {
    digits((ip / 0x100_0000) as nat) + seq!['.'] + digits(((ip / 0x1_0000) % 0x100) as nat)
        + seq!['.'] + digits(((ip / 0x100) % 0x100) as nat) + seq!['.'] + digits((ip % 0x100) as nat)
        + seq![':'] + digits(port as nat)
}

/// Append an IPv4 endpoint as `a.b.c.d:port`.
pub fn push_addr(out: &mut String, ip: u32, port: u16)
    ensures
        final(out)@ == old(out)@ + addr_text(ip, port),
{
    push_decimal(out, (ip / 0x100_0000) as u128);
    out.push('.');
    push_decimal(out, ((ip / 0x1_0000) % 0x100) as u128);
    out.push('.');
    push_decimal(out, ((ip / 0x100) % 0x100) as u128);
    out.push('.');
    push_decimal(out, (ip % 0x100) as u128);
    out.push(':');
    push_decimal(out, port as u128);
    assert(out@ =~= old(out)@ + addr_text(ip, port));
}

/// Whether `c` is a decimal digit.
pub open spec fn is_digit(c: char) -> bool {
    '0' <= c <= '9'
}

/// The value of a decimal digit.
pub open spec fn digit_value(c: char) -> nat {
    if is_digit(c) {
        (c as int - 48) as nat
    } else {
        0
    }
}

/// The number that a row of digits writes.
pub open spec fn number(s: Seq<char>) -> nat
    decreases s.len(),
{
    if s.len() == 0 {
        0
    } else {
        number(s.drop_last()) * 10 + digit_value(s.last())
    }
}

/// Whether `s` is a nonempty row of digits.
pub open spec fn is_number(s: Seq<char>) -> bool {
    s.len() > 0 && forall|i: int| 0 <= i < s.len() ==> is_digit(#[trigger] s[i])
}

/// The text without one leading plus sign.
pub open spec fn unsigned_part(s: Seq<char>) -> Seq<char> {
    if s.len() > 0 && s[0] == '+' {
        s.skip(1)
    } else {
        s
    }
}

/// The unsigned 64-bit number that `s` writes: digits, leading zeros and one
/// leading plus sign allowed.
pub open spec fn u64_of(s: Seq<char>) -> Option<u64> {
    let body = unsigned_part(s);
    if is_number(body) && number(body) <= u64::MAX {
        Some(number(body) as u64)
    } else {
        None
    }
}

proof fn lemma_number_grows(s: Seq<char>, n: int)
    requires
        0 <= n <= s.len(),
    ensures
        number(s.take(n)) <= number(s),
    decreases s.len(),
{
    if n == s.len() {
        assert(s.take(n) =~= s);
    } else {
        lemma_number_grows(s.drop_last(), n);
        assert(s.drop_last().take(n) =~= s.take(n));
    }
}

/// Read an unsigned 64-bit number.
pub fn parse_u64(s: &str) -> (r: Option<u64>)
    ensures
        r == u64_of(s@),
{
    let v = chars_of(s);
    let start: usize = if v.len() > 0 && v[0] == '+' {
        1
    } else {
        0
    };
    let ghost body = unsigned_part(s@);
    assert(body =~= s@.skip(start as int));
    if start >= v.len() {
        return None;
    }
    let mut n: u64 = 0;
    let mut i: usize = start;
    while i < v.len()
        invariant
            v@ == s@,
            start <= i <= v.len(),
            start < v.len(),
            body == s@.skip(start as int),
            body == unsigned_part(s@),
            n == number(body.take(i - start)),
            forall|j: int| 0 <= j < i - start ==> is_digit(#[trigger] body[j]),
        decreases v.len() - i,
    {
        let c = v[i];
        assert(c == body[i - start]);
        if !('0' <= c && c <= '9') {
            assert(!is_digit(body[i - start]));
            return None;
        }
        let d: u64 = (c as u32 - 48) as u64;
        proof {
            let next = body.take(i - start + 1);
            assert(next.drop_last() =~= body.take(i - start));
            assert(number(next) == n * 10 + d);
            lemma_number_grows(body, i - start + 1);
        }
        let tens = match n.checked_mul(10) {
            Some(t) => t,
            None => {
                return None;
            },
        };
        n =
        match tens.checked_add(d) {
            Some(t) => t,
            None => {
                return None;
            },
        };
        i = i + 1;
    }
    assert(body.take(i - start) =~= body);
    Some(n)
}

/// The decimal text of a number is a row of digits that writes it.
pub proof fn law_decimal_reads_back(n: nat)
    ensures
        is_number(digits(n)),
        number(digits(n)) == n,
        unsigned_part(digits(n)) == digits(n),
        n <= u64::MAX ==> u64_of(digits(n)) == Some(n as u64),
    decreases n,
{
    if n < 10 {
        assert(digits(n).drop_last() =~= Seq::empty());
        assert(is_digit(digits(n)[0]));
        assert(number(Seq::<char>::empty()) == 0);
    } else {
        law_decimal_reads_back(n / 10);
        assert(digits(n).drop_last() =~= digits(n / 10));
        assert(is_digit(digit_char(n % 10)));
        assert forall|i: int| 0 <= i < digits(n).len() implies is_digit(
            #[trigger] digits(n)[i],
        ) by {
            if i < digits(n / 10).len() {
                assert(digits(n)[i] == digits(n / 10)[i]);
            }
        }
    }
    assert(is_digit(digits(n)[0]));
}

/// `c` in lower case, where it is an ASCII letter.
pub open spec fn lower_char(c: char) -> char {
    if 'A' <= c <= 'Z' {
        (c as int + 32) as char
    } else {
        c
    }
}

/// `s` with its ASCII letters in lower case.
pub open spec fn lower(s: Seq<char>) -> Seq<char> {
    s.map_values(|c: char| lower_char(c))
}

/// `s` with its ASCII letters in lower case.
pub fn to_lower(s: &str) -> (r: String)
    ensures
        r@ == lower(s@),
{
    let v = chars_of(s);
    let mut r = String::new();
    for i in 0..v.len()
        invariant
            v@ == s@,
            r@ == lower(s@).take(i as int),
    {
        let c = v[i];
        let l: char = if 'A' <= c && c <= 'Z' {
            ((c as u8) + 32u8) as char
        } else {
            c
        };
        r.push(l);
        assert(r@ =~= lower(s@).take(i as int + 1));
    }
    assert(r@ =~= lower(s@));
    r
}

/// What `{:?}` prints of a string: quoted, with what is not printable
/// escaped.
pub uninterp spec fn quoted(s: Seq<char>) -> Seq<char>;

/// `format!("{:?}", s)`: the string in quotes, as std escapes it. How it is
/// escaped is left unsaid; the result depends on the string alone.
#[verifier::external_body]
pub(crate) fn quote(s: &str) -> (r: String)
    ensures
        r@ == quoted(s@),
{
    format!("{:?}", s)
}

/// Whether two texts are the same.
pub fn same_text(a: &str, b: &str) -> (r: bool)
    ensures
        r == (a@ == b@),
{
    let x = chars_of(a);
    let y = chars_of(b);
    if x.len() != y.len() {
        return false;
    }
    let mut i: usize = 0;
    while i < x.len()
        invariant
            x@ == a@,
            y@ == b@,
            x.len() == y.len(),
            i <= x.len(),
            forall|j: int| 0 <= j < i ==> a@[j] == b@[j],
        decreases x.len() - i,
    {
        if x[i] != y[i] {
            return false;
        }
        i = i + 1;
    }
    assert(a@ =~= b@);
    true
}

/// A string of `v`'s characters from `from` up to `to`.
pub fn string_between(v: &Vec<char>, from: usize, to: usize) -> (s: String)
    requires
        from <= to <= v.len(),
    ensures
        s@ == v@.subrange(from as int, to as int),
{
    let mut s = String::new();
    let mut i: usize = from;
    while i < to
        invariant
            from <= i <= to <= v.len(),
            s@ == v@.subrange(from as int, i as int),
        decreases to - i,
    {
        s.push(v[i]);
        i = i + 1;
        assert(s@ =~= v@.subrange(from as int, i as int));
    }
    s
}

/// The lower-case hexadecimal digit `d`, for `d < 16`.
pub open spec fn hex_digit(d: nat) -> char {
    if d < 10 {
        (48 + d) as char
    } else {
        (87 + d) as char
    }
}

/// The `width` low hexadecimal digits of `n`, zeros in front.
pub open spec fn hex_digits(n: nat, width: nat) -> Seq<char>
    decreases width,
{
    if width == 0 {
        Seq::empty()
    } else {
        hex_digits(n / 16, (width - 1) as nat).push(hex_digit(n % 16))
    }
}

/// Append the `width` low hexadecimal digits of `n`.
pub fn push_hex(out: &mut String, n: u64, width: usize)
    ensures
        final(out)@ == old(out)@ + hex_digits(n as nat, width as nat),
    decreases width,
{
    if width == 0 {
        assert(out@ =~= old(out)@ + hex_digits(n as nat, width as nat));
        return;
    }
    push_hex(out, n / 16, width - 1);
    let d: u8 = (n % 16) as u8;
    let c: char = if d < 10 {
        (48u8 + d) as char
    } else {
        (87u8 + d) as char
    };
    out.push(c);
    assert(out@ =~= old(out)@ + hex_digits(n as nat, width as nat));
}

/// `0x` and 16 hexadecimal digits.
pub open spec fn hex_text(n: u64) -> Seq<char> {
    "0x"@ + hex_digits(n as nat, 16)
}

/// Append `0x` and 16 hexadecimal digits.
pub fn push_hex_text(out: &mut String, n: u64)
    ensures
        final(out)@ == old(out)@ + hex_text(n),
{
    out.append("0x");
    push_hex(out, n, 16);
    assert(out@ =~= old(out)@ + hex_text(n));
}

/// `s` up to the first `c`, all of it where there is none.
pub open spec fn until(s: Seq<char>, c: char) -> Seq<char>
    decreases s.len(),
{
    if s.len() == 0 || s[0] == c {
        Seq::empty()
    } else {
        seq![s[0]] + until(s.skip(1), c)
    }
}

/// The first line of `s`, without its end.
pub open spec fn first_line(s: Seq<char>) -> Seq<char> {
    let l = until(s, '\n');
    if l.len() < s.len() && l.len() > 0 && l.last() == '\r' {
        l.drop_last()
    } else {
        l
    }
}

/// Where in `v`, from `from` up to `to`, the first `c` stands; `to` where
/// none does.
pub fn find(v: &Vec<char>, from: usize, to: usize, c: char) -> (r: usize)
    requires
        from <= to <= v.len(),
    ensures
        from <= r <= to,
        v@.subrange(from as int, r as int) == until(v@.subrange(from as int, to as int), c),
{
    let mut i: usize = from;
    let ghost whole = v@.subrange(from as int, to as int);
    assert(v@.subrange(from as int, from as int) =~= Seq::empty());
    assert(v@.subrange(from as int, i as int) + until(v@.subrange(i as int, to as int), c) =~= until(
        whole,
        c,
    ));
    while i < to
        invariant
            from <= i <= to <= v.len(),
            whole == v@.subrange(from as int, to as int),
            v@.subrange(from as int, i as int) + until(v@.subrange(i as int, to as int), c)
                == until(whole, c),
        decreases to - i,
    {
        let ghost rest = v@.subrange(i as int, to as int);
        if v[i] == c {
            assert(rest[0] == c);
            assert(v@.subrange(from as int, i as int) =~= until(whole, c));
            return i;
        }
        assert(rest.skip(1) =~= v@.subrange(i as int + 1, to as int));
        assert(v@.subrange(from as int, i as int + 1) =~= v@.subrange(from as int, i as int)
            + seq![rest[0]]);
        i = i + 1;
        assert(v@.subrange(from as int, i as int) + until(v@.subrange(i as int, to as int), c)
            =~= until(whole, c));
    }
    assert(v@.subrange(i as int, to as int) =~= Seq::empty());
    assert(v@.subrange(from as int, i as int) =~= until(whole, c));
    i
}

/// The text of a truth value.
pub open spec fn bool_text(b: bool) -> Seq<char> {
    if b {
        "true"@
    } else {
        "false"@
    }
}

/// The text of a truth value.
pub fn bool_str(b: bool) -> (s: &'static str)
    ensures
        s@ == bool_text(b),
{
    if b {
        "true"
    } else {
        "false"
    }
}

/// Decimal digits are the ten characters from `0` to `9`, a number below ten
/// is its digit, and another digit makes ten times as much and one more.
pub proof fn law_decimal_is_written_in_digits(n: nat, d: nat)
    requires
        d < 10,
    ensures
        digit_char(d) as int == '0' as int + d,
        digits(d) == seq![('0' as int + d) as char],
        n > 0 ==> digits(10 * n + d) == digits(n).push(('0' as int + d) as char),
        digits(n).len() > 0,
    decreases n,
{
    if n > 0 {
        assert((10 * n + d) / 10 == n);
        assert((10 * n + d) % 10 == d);
    }
    if n >= 10 {
        law_decimal_is_written_in_digits(n / 10, d);
    }
}

/// Two numbers with the same text are the same.
pub proof fn law_decimals_are_told_apart(a: nat, b: nat)
    ensures
        digits(a) == digits(b) ==> a == b,
{
    law_decimal_reads_back(a);
    law_decimal_reads_back(b);
}

/// A negative number has a minus in front of its size, any other none.
pub proof fn law_sign_stands_in_front(n: nat)
    ensures
        signed_digits(n as int) == digits(n),
        n > 0 ==> signed_digits(-n) == seq!['-'] + digits(n),
{
}

/// A digit is one of the ten, and stands for its distance from `0`.
pub proof fn law_digits_have_their_values(c: char)
    ensures
        is_digit(c) <==> '0' <= c <= '9',
        is_digit(c) ==> digit_value(c) == c as int - '0' as int,
{
}

/// Only digits, after one plus sign at most, are read as a number, at the
/// value they write, and only where that fits.
pub proof fn law_numbers_are_read_strictly(s: Seq<char>)
    ensures
        u64_of(s) is Some ==> s.len() > 0,
        u64_of(s) is Some ==> forall|i: int|
            0 < i < s.len() ==> '0' <= #[trigger] s[i] <= '9',
        u64_of(s) is Some ==> s[0] == '+' || '0' <= s[0] <= '9',
        is_number(s) && number(s) <= u64::MAX ==> u64_of(s) == Some(number(s) as u64) && u64_of(
            seq!['+'] + s,
        ) == Some(number(s) as u64),
        is_number(s) && number(s) > u64::MAX ==> u64_of(s) is None,
{
    let p = seq!['+'] + s;
    assert(p.skip(1) =~= s);
    if u64_of(s) is Some {
        let body = unsigned_part(s);
        if s[0] == '+' {
            assert forall|i: int| 0 < i < s.len() implies '0' <= #[trigger] s[i] <= '9' by {
                assert(is_digit(body[i - 1]));
            }
        } else {
            assert forall|i: int| 0 <= i < s.len() implies '0' <= #[trigger] s[i] <= '9' by {
                assert(is_digit(body[i]));
            }
        }
    }
    if is_number(s) {
        assert(is_digit(s[0]));
    }
}

/// One more digit makes a row of digits worth ten times as much and the digit.
pub proof fn law_places_are_tenfold(s: Seq<char>, c: char)
    requires
        '0' <= c <= '9',
    ensures
        number(s.push(c)) == 10 * number(s) + (c as int - '0' as int),
        number(Seq::empty()) == 0,
{
    assert(s.push(c).drop_last() =~= s);
}

/// An endpoint's text is its four bytes, highest first, and its port.
pub proof fn law_address_is_its_bytes(a: u8, b: u8, c: u8, d: u8, port: u16)
    ensures
        addr_text(
            (a as int * 0x100_0000 + b as int * 0x1_0000 + c as int * 0x100 + d as int) as u32,
            port,
        ) == digits(a as nat) + seq!['.'] + digits(b as nat) + seq!['.'] + digits(c as nat) + seq![
            '.',
        ] + digits(d as nat) + seq![':'] + digits(port as nat),
{
    let ip: u32 = (a as int * 0x100_0000 + b as int * 0x1_0000 + c as int * 0x100 + d as int) as u32;
    let x: int = a as int * 0x100 + b as int;
    let y: int = x * 0x100 + c as int;
    assert(ip as int == y * 0x100 + d as int);
    lemma_low_byte(a as int, b as int);
    lemma_low_byte(x, c as int);
    lemma_low_byte(y, d as int);
    vstd::arithmetic::div_mod::lemma_div_denominator(ip as int, 0x100, 0x100);
    vstd::arithmetic::div_mod::lemma_div_denominator(ip as int, 0x1_0000, 0x100);
    assert(ip / 0x1_0000 == x);
    assert(ip / 0x100_0000 == a);
}

proof fn lemma_low_byte(high: int, low: int)
    requires
        0 <= high,
        0 <= low < 0x100,
    ensures
        (high * 0x100 + low) / 0x100 == high,
        (high * 0x100 + low) % 0x100 == low,
{
}

/// Lower case changes the letters from `A` to `Z` and nothing else, and
/// changing twice changes nothing more.
pub proof fn law_lower_case_touches_capitals(s: Seq<char>, i: int)
    requires
        0 <= i < s.len(),
    ensures
        lower(s).len() == s.len(),
        'A' <= s[i] <= 'Z' ==> lower(s)[i] as int == s[i] as int + ('a' as int - 'A' as int),
        !('A' <= s[i] <= 'Z') ==> lower(s)[i] == s[i],
        lower(lower(s)) == lower(s),
{
    assert(lower(lower(s)) =~= lower(s));
}

/// A hexadecimal text has its width, `0` to `9` and `a` to `f`, and every
/// place is worth sixteen times the one behind it.
pub proof fn law_hexadecimal_is_written_in_digits(n: nat, d: nat, width: nat)
    requires
        d < 16,
    ensures
        hex_digits(n, width).len() == width,
        hex_digits(16 * n + d, width + 1) == hex_digits(n, width).push(hex_digit(d)),
        d < 10 ==> hex_digit(d) as int == '0' as int + d,
        d >= 10 ==> hex_digit(d) as int == 'a' as int + (d - 10),
    decreases width,
{
    assert((16 * n + d) / 16 == n);
    assert((16 * n + d) % 16 == d);
    if width > 0 {
        law_hexadecimal_is_written_in_digits(n / 16, d, (width - 1) as nat);
    }
}

/// Two numbers of 64 bits with the same hexadecimal text are the same.
pub proof fn law_hexadecimals_are_told_apart(a: u64, b: u64)
    ensures
        hex_text(a).len() == 18,
        hex_text(a).take(2) == "0x"@,
        hex_text(a) == hex_text(b) ==> a == b,
{
    reveal_strlit("0x");
    law_hexadecimal_is_written_in_digits(a as nat, 0, 16);
    law_hexadecimal_is_written_in_digits(b as nat, 0, 16);
    assert(hex_text(a).take(2) =~= "0x"@);
    assert(hex_text(a).skip(2) =~= hex_digits(a as nat, 16));
    assert(hex_text(b).skip(2) =~= hex_digits(b as nat, 16));
    if hex_text(a) == hex_text(b) {
        assert(pow16(16) == 0x1_0000_0000_0000_0000) by {
            reveal_with_fuel(pow16, 17);
        }
        lemma_hex_is_injective(a as nat, b as nat, 16);
    }
}

/// Sixteen to the power `width`.
spec fn pow16(width: nat) -> nat
    decreases width,
{
    if width == 0 {
        1
    } else {
        16 * pow16((width - 1) as nat)
    }
}

proof fn lemma_hex_is_injective(a: nat, b: nat, width: nat)
    requires
        hex_digits(a, width) == hex_digits(b, width),
        a < pow16(width),
        b < pow16(width),
    ensures
        a == b,
    decreases width,
{
    if width > 0 {
        let x = hex_digits(a, width);
        let y = hex_digits(b, width);
        assert(x.drop_last() =~= hex_digits(a / 16, (width - 1) as nat));
        assert(y.drop_last() =~= hex_digits(b / 16, (width - 1) as nat));
        assert(x.last() == y.last());
        assert(a % 16 == b % 16);
        lemma_hex_is_injective(a / 16, b / 16, (width - 1) as nat);
    }
}

/// A text up to a character that it does not hold is all of it.
pub proof fn law_text_without_a_character(s: Seq<char>, c: char)
    requires
        !s.contains(c),
    ensures
        until(s, c) == s,
    decreases s.len(),
{
    if s.len() > 0 {
        assert(s[0] != c);
        assert forall|i: int| 0 <= i < s.skip(1).len() implies s.skip(1)[i] != c by {
            assert(s[i + 1] != c);
        }
        assert(!s.skip(1).contains(c));
        law_text_without_a_character(s.skip(1), c);
        assert(seq![s[0]] + s.skip(1) =~= s);
    } else {
        assert(until(s, c) =~= s);
    }
}

/// A text up to the first of a character is what stands before it.
pub proof fn law_text_up_to_a_character(s: Seq<char>, rest: Seq<char>, c: char)
    requires
        !s.contains(c),
    ensures
        until(s + seq![c] + rest, c) == s,
    decreases s.len(),
{
    let all = s + seq![c] + rest;
    if s.len() > 0 {
        assert(s[0] != c);
        assert forall|i: int| 0 <= i < s.skip(1).len() implies s.skip(1)[i] != c by {
            assert(s[i + 1] != c);
        }
        assert(!s.skip(1).contains(c));
        law_text_up_to_a_character(s.skip(1), rest, c);
        assert(all.skip(1) =~= s.skip(1) + seq![c] + rest);
        assert(seq![s[0]] + s.skip(1) =~= s);
    } else {
        assert(all[0] == c);
        assert(until(all, c) =~= s);
    }
}

/// The first line ends before the line's end, with or without a carriage
/// return, which is not part of it.
pub proof fn law_first_line_ends_at_its_end(s: Seq<char>, rest: Seq<char>)
    requires
        !s.contains('\n'),
        s.len() == 0 || s.last() != '\r',
    ensures
        first_line(s) == s,
        first_line(s + seq!['\n'] + rest) == s,
        first_line(s.push('\r') + seq!['\n'] + rest) == s,
{
    law_text_without_a_character(s, '\n');
    law_text_up_to_a_character(s, rest, '\n');
    let t = s.push('\r');
    assert forall|i: int| 0 <= i < t.len() implies t[i] != '\n' by {
        if i < s.len() {
            assert(s[i] != '\n');
        }
    }
    assert(!t.contains('\n'));
    law_text_up_to_a_character(t, rest, '\n');
    assert(t.drop_last() =~= s);
}

/// A flag's text says which it is.
pub proof fn law_flags_are_told_apart(b: bool)
    ensures
        bool_text(true) == "true"@,
        bool_text(false) == "false"@,
        bool_text(b) != bool_text(!b),
{
    reveal_strlit("true");
    reveal_strlit("false");
    assert("true"@.len() != "false"@.len());
}

} // verus!
