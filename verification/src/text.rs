//! Text and byte-string primitives: decimal and hexadecimal rendering, little-endian words,
//! and the byte order of file names.
use vstd::prelude::*;

verus! {

/// What std's `Debug` rendering of a string gives: the string between double quotes, escaped.
pub uninterp spec fn debug_text(text: Seq<char>) -> Seq<char>;

/// Renders a string by the `Debug` impl that std has for `str`, through `format!`. The contract
/// names the rendering, which depends on the characters of the string alone.
#[verifier::external_body]
pub(crate) fn debug_quoted(text: &str) -> (quoted: String)
    ensures
        quoted@ == debug_text(text@),
{
    format!("{text:?}")
}

/// Whether two strings hold the same characters.
pub fn same_text(left: &str, right: &str) -> (same: bool)
    ensures
        same == (left@ == right@),
{
    let (left, right) = (left.to_owned(), right.to_owned());
    left == right
}

/// Whether a string starts with another.
pub fn starts_with(text: &str, prefix: &str) -> (starts: bool)
    ensures
        starts == prefix@.is_prefix_of(text@),
{
    let length: usize = prefix.unicode_len();
    if text.unicode_len() < length {
        return false;
    }
    let mut at: usize = 0;
    while at < length
        invariant
            at <= length == prefix@.len() <= text@.len(),
            forall|i: int| 0 <= i < at ==> prefix@[i] == text@[i],
        decreases length - at,
    {
        if text.get_char(at) != prefix.get_char(at) {
            assert(text@.subrange(0, length as int)[at as int] != prefix@[at as int]);
            return false;
        }
        at = at + 1;
    }
    assert(text@.subrange(0, length as int) =~= prefix@);
    true
}

/// A flag as std renders it.
pub open spec fn flag_text(flag: bool) -> Seq<char> {
    if flag {
        "true"@
    } else {
        "false"@
    }
}

/// Renders a flag as std does.
pub fn flag(set: bool) -> (text: &'static str)
    ensures
        text@ == flag_text(set),
{
    if set {
        "true"
    } else {
        "false"
    }
}

/// The decimal digit of a number below ten.
pub open spec fn decimal_digit(n: nat) -> char {
    ('0' as u32 + n) as char
}

/// A number in decimal, without leading zeros.
pub open spec fn decimal_text(n: nat) -> Seq<char>
    decreases n,
{
    if n < 10 {
        seq![decimal_digit(n)]
    } else {
        decimal_text(n / 10).push(decimal_digit(n % 10))
    }
}

/// The decimal digit of a number below ten, as a string.
fn digit_text(n: u64) -> (digit: &'static str)
    requires
        n < 10,
    ensures
        digit@ == seq![decimal_digit(n as nat)],
{
    proof {
        reveal_strlit("0");
        reveal_strlit("1");
        reveal_strlit("2");
        reveal_strlit("3");
        reveal_strlit("4");
        reveal_strlit("5");
        reveal_strlit("6");
        reveal_strlit("7");
        reveal_strlit("8");
        reveal_strlit("9");
    }
    match n {
        0 => "0",
        1 => "1",
        2 => "2",
        3 => "3",
        4 => "4",
        5 => "5",
        6 => "6",
        7 => "7",
        8 => "8",
        _ => "9",
    }
}

/// Renders a number in decimal.
pub fn decimal(n: u64) -> (text: String)
    ensures
        text@ == decimal_text(n as nat),
    decreases n,
{
    if n < 10 {
        String::from_str(digit_text(n))
    } else {
        let mut text = decimal(n / 10);
        text.append(digit_text(n % 10));
        text
    }
}

/// A number below sixteen as a lower-case hexadecimal digit.
pub open spec fn hex_digit(n: nat) -> char {
    if n < 10 {
        ('0' as u32 + n) as char
    } else {
        ('a' as u32 + (n - 10)) as char
    }
}

/// A byte string in lower-case hexadecimal, two digits a byte, the high one first.
pub open spec fn hex_text(bytes: Seq<u8>) -> Seq<char> {
    Seq::new(
        2 * bytes.len(),
        |i: int|
            if i % 2 == 0 {
                hex_digit((bytes[i / 2] / 16) as nat)
            } else {
                hex_digit((bytes[i / 2] % 16) as nat)
            },
    )
}

/// Whether a character is a lower-case hexadecimal digit.
pub open spec fn is_hex_digit(c: char) -> bool {
    ('0' <= c && c <= '9') || ('a' <= c && c <= 'f')
}

/// The hexadecimal form of a byte string has two digits a byte and determines the bytes.
pub proof fn lemma_hex_text(bytes: Seq<u8>)
    ensures
        hex_text(bytes).len() == 2 * bytes.len(),
        forall|i: int| 0 <= i < hex_text(bytes).len() ==> is_hex_digit(#[trigger] hex_text(bytes)[i]),
        forall|other: Seq<u8>| #[trigger] hex_text(other) == hex_text(bytes) ==> other == bytes,
{
    assert forall|other: Seq<u8>| #[trigger] hex_text(other) == hex_text(bytes) implies other
        == bytes by {
        assert(hex_text(other).len() == 2 * other.len());
        assert forall|at: int| 0 <= at < bytes.len() implies other[at] == bytes[at] by {
            assert((2 * at) % 2 == 0 && (2 * at) / 2 == at && (2 * at + 1) % 2 == 1 && (2 * at + 1)
                / 2 == at);
            assert(hex_text(other)[2 * at] == hex_text(bytes)[2 * at]);
            assert(hex_text(other)[2 * at + 1] == hex_text(bytes)[2 * at + 1]);
        }
        assert(other =~= bytes);
    }
}

/// A number below sixteen as a one-character string.
fn nibble_text(n: u8) -> (digit: &'static str)
    requires
        n < 16,
    ensures
        digit@ == seq![hex_digit(n as nat)],
{
    if n < 10 {
        digit_text(n as u64)
    } else {
        proof {
            reveal_strlit("a");
            reveal_strlit("b");
            reveal_strlit("c");
            reveal_strlit("d");
            reveal_strlit("e");
            reveal_strlit("f");
        }
        match n {
            10 => "a",
            11 => "b",
            12 => "c",
            13 => "d",
            14 => "e",
            _ => "f",
        }
    }
}

/// Renders a byte string in lower-case hexadecimal.
pub fn hex(bytes: &[u8]) -> (text: String)
    ensures
        text@ == hex_text(bytes@),
{
    let mut text = String::new();
    let mut done: usize = 0;
    while done < bytes.len()
        invariant
            done <= bytes@.len(),
            text@ == hex_text(bytes@.take(done as int)),
        decreases bytes@.len() - done,
    {
        text.append(nibble_text(bytes[done] / 16));
        text.append(nibble_text(bytes[done] % 16));
        done = done + 1;
        assert(text@ =~= hex_text(bytes@.take(done as int)));
    }
    assert(bytes@.take(done as int) =~= bytes@);
    text
}

/// The low `width` bytes of a number, the lowest first.
pub open spec fn little_endian(n: nat, width: nat) -> Seq<u8>
    decreases width,
{
    if width == 0 {
        Seq::empty()
    } else {
        seq![(n % 256) as u8] + little_endian(n / 256, (width - 1) as nat)
    }
}

/// `256^width`: the first number that `width` bytes cannot hold.
pub open spec fn byte_capacity(width: nat) -> nat
    decreases width,
{
    if width == 0 {
        1
    } else {
        256 * byte_capacity((width - 1) as nat)
    }
}

pub proof fn lemma_little_endian_len(n: nat, width: nat)
    ensures
        little_endian(n, width).len() == width,
    decreases width,
{
    if width > 0 {
        lemma_little_endian_len(n / 256, (width - 1) as nat);
    }
}

/// A number that fits its width is recovered from its little-endian bytes: two such numbers
/// with the same bytes are equal.
pub proof fn lemma_little_endian_injective(left: nat, right: nat, width: nat)
    requires
        left < byte_capacity(width),
        right < byte_capacity(width),
        little_endian(left, width) == little_endian(right, width),
    ensures
        left == right,
    decreases width,
{
    if width > 0 {
        let rest = (width - 1) as nat;
        let (l, r) = (little_endian(left, width), little_endian(right, width));
        assert(l[0] == (left % 256) as u8);
        assert(r[0] == (right % 256) as u8);
        assert(l.skip(1) =~= little_endian(left / 256, rest));
        assert(r.skip(1) =~= little_endian(right / 256, rest));
        lemma_little_endian_injective(left / 256, right / 256, rest);
    }
}

/// Eight bytes hold every word.
pub proof fn lemma_word_capacities()
    ensures
        u64::MAX < byte_capacity(8),
{
    lemma_byte_capacities();
}

proof fn lemma_byte_capacities()
    ensures
        byte_capacity(4) == 0x1_0000_0000,
        byte_capacity(8) == 0x1_0000_0000_0000_0000,
{
    reveal_with_fuel(byte_capacity, 9);
}

/// Up to eight bytes hold no more than a word.
pub proof fn lemma_capacity_bound(width: nat)
    requires
        0 < width <= 8,
    ensures
        byte_capacity(width) == 256 * byte_capacity((width - 1) as nat),
        byte_capacity(width) <= 0x1_0000_0000_0000_0000,
{
    lemma_byte_capacities();
    reveal_with_fuel(byte_capacity, 9);
}

/// The eight little-endian bytes of a word.
pub fn little_endian_u64(n: u64) -> (bytes: Vec<u8>)
    ensures
        bytes@ == little_endian(n as nat, 8),
{
    little_endian_low(n, 8)
}

/// The low `width` bytes of a word, the lowest first.
pub fn little_endian_low(n: u64, width: usize) -> (bytes: Vec<u8>)
    ensures
        bytes@ == little_endian(n as nat, width as nat),
{
    let mut bytes: Vec<u8> = Vec::new();
    let mut rest: u64 = n;
    let mut done: usize = 0;
    while done < width
        invariant
            done <= width,
            bytes@ + little_endian(rest as nat, (width - done) as nat) == little_endian(
                n as nat,
                width as nat,
            ),
        decreases width - done,
    {
        let ghost before = bytes@;
        bytes.push((rest % 256) as u8);
        rest = rest / 256;
        done = done + 1;
        assert(bytes@ + little_endian(rest as nat, (width - done) as nat) =~= before
            + little_endian((rest * 256 + bytes@.last()) as nat, (width - done + 1) as nat));
    }
    bytes
}

/// The number of bytes of a machine word.
pub open spec fn word_width() -> nat {
    (usize::BITS / 8) as nat
}

/// The little-endian bytes of a machine word, as many as the machine gives it.
pub open spec fn word_bytes(n: nat) -> Seq<u8> {
    little_endian(n, word_width())
}

/// The little-endian bytes of a machine word.
pub fn little_endian_word(n: usize) -> (bytes: Vec<u8>)
    ensures
        bytes@ == word_bytes(n as nat),
{
    little_endian_low(n as u64, (usize::BITS / 8) as usize)
}

/// The bytes of a machine word hold every machine word.
pub proof fn lemma_word_capacity()
    ensures
        usize::MAX < byte_capacity(word_width()),
        word_width() >= 4,
{
    lemma_byte_capacities();
}

/// A half word is recovered from its four little-endian bytes.
pub proof fn lemma_u32_bytes_injective(left: u32, right: u32)
    requires
        little_endian(left as nat, 4) == little_endian(right as nat, 4),
    ensures
        left == right,
{
    lemma_byte_capacities();
    lemma_little_endian_injective(left as nat, right as nat, 4);
}

/// The number that decimal digits stand for, read from the left.
pub open spec fn decimal_value(digits: Seq<char>) -> int
    decreases digits.len(),
{
    if digits.len() == 0 {
        0
    } else {
        10 * decimal_value(digits.drop_last()) + (digits.last() as int - '0' as int)
    }
}

/// A number in decimal reads back as the number, is made of digits alone, and starts with a zero
/// only where it is zero.
pub proof fn law_decimal_reads_back(n: nat)
    ensures
        decimal_value(decimal_text(n)) == n,
        decimal_text(n).len() > 0,
        forall|i: int|
            0 <= i < decimal_text(n).len() ==> '0' <= #[trigger] decimal_text(n)[i] <= '9',
        decimal_text(n)[0] == '0' ==> n == 0 && decimal_text(n).len() == 1,
    decreases n,
{
    if n >= 10 {
        let shorter = decimal_text(n / 10);
        law_decimal_reads_back(n / 10);
        assert(decimal_text(n).drop_last() =~= shorter);
        assert(decimal_text(n)[0] == shorter[0]);
    } else {
        assert(decimal_text(n).drop_last() =~= Seq::empty());
        assert(decimal_value(Seq::empty()) == 0);
    }
}

/// Different numbers have different decimal texts.
pub proof fn law_decimal_tells_numbers_apart(left: nat, right: nat)
    requires
        decimal_text(left) == decimal_text(right),
    ensures
        left == right,
{
    law_decimal_reads_back(left);
    law_decimal_reads_back(right);
}

/// The number that a lower-case hexadecimal digit stands for.
pub open spec fn hex_value(digit: char) -> int {
    if digit <= '9' {
        digit as int - '0' as int
    } else {
        digit as int - 'a' as int + 10
    }
}

/// Each byte is two hexadecimal digits, the higher first, in the order of the bytes.
pub proof fn law_hex_reads_back(bytes: Seq<u8>, at: int)
    requires
        0 <= at < bytes.len(),
    ensures
        hex_text(bytes).len() == 2 * bytes.len(),
        16 * hex_value(hex_text(bytes)[2 * at]) + hex_value(hex_text(bytes)[2 * at + 1])
            == bytes[at],
        0 <= hex_value(hex_text(bytes)[2 * at + 1]) < 16,
        ({
            let digit = hex_text(bytes)[2 * at];
            ('0' <= digit && digit <= '9') || ('a' <= digit && digit <= 'f')
        }),
        ({
            let digit = hex_text(bytes)[2 * at + 1];
            ('0' <= digit && digit <= '9') || ('a' <= digit && digit <= 'f')
        }),
{
    assert((2 * at) / 2 == at && (2 * at + 1) / 2 == at);
}

/// The bytes of a number, the lowest first: the first is what the number leaves of 256, and the
/// others are those of what is left of the number.
pub proof fn law_little_endian_bytes(n: nat, width: nat, at: int)
    requires
        0 <= at < width,
    ensures
        little_endian(n, width).len() == width,
        little_endian(n, width)[at] == n / (vstd::arithmetic::power::pow(256, at as nat) as nat)
            % 256,
        vstd::arithmetic::power::pow(256, at as nat) > 0,
    decreases width,
{
    lemma_little_endian_len(n, width);
    lemma_little_endian_len(n / 256, (width - 1) as nat);
    vstd::arithmetic::power::lemma_pow_positive(256, at as nat);
    reveal(vstd::arithmetic::power::pow);
    if at > 0 {
        law_little_endian_bytes(n / 256, (width - 1) as nat, at - 1);
        vstd::arithmetic::power::lemma_pow_positive(256, (at - 1) as nat);
        vstd::arithmetic::div_mod::lemma_div_denominator(
            n as int,
            256,
            vstd::arithmetic::power::pow(256, (at - 1) as nat),
        );
    } else {
        assert(vstd::arithmetic::power::pow(256, 0) == 1);
    }
}

/// A machine word has as many bytes as the machine gives it, the lowest first.
pub proof fn law_words_have_the_machine_width(n: nat, at: int)
    requires
        0 <= at < word_width(),
    ensures
        word_width() * 8 == usize::BITS,
        word_bytes(n).len() == word_width(),
        word_bytes(n)[at] == n / (vstd::arithmetic::power::pow(256, at as nat) as nat) % 256,
{
    assert(usize::BITS == 32 || usize::BITS == 64);
    law_little_endian_bytes(n, word_width(), at);
}

} // verus!
