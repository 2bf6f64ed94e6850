//! Base64 and UUID text, from the crates that define them.

use vstd::prelude::*;

use base64::Engine;

verus! {

/// `bytes` in standard base64 with padding.
pub uninterp spec fn base64_text(bytes: Seq<u8>) -> Seq<char>;

/// The UUID that `s` writes, in any of the forms that the `uuid` crate reads.
pub uninterp spec fn uuid_parsed(s: Seq<char>) -> Option<u128>;

/// How many characters base64 takes for `n` bytes.
pub open spec fn base64_len(n: nat) -> nat {
    4 * ((n + 2) / 3)
}

/// `Engine::encode` of base64's `STANDARD` engine. The text is named; it holds four ASCII
/// characters for each three bytes begun. A text longer than an allocation can be makes the
/// crate panic and is left out.
#[verifier::external_body]
pub(crate) fn base64_encode(bytes: &[u8]) -> (encoded: String)
    requires
        base64_len(bytes@.len()) <= isize::MAX,
    ensures
        encoded@ == base64_text(bytes@),
        encoded@.len() == base64_len(bytes@.len()),
        vstd::utf8::is_ascii_chars(encoded@),
{
    base64::engine::general_purpose::STANDARD.encode(bytes)
}

pub open spec fn hex_digit(d: int) -> char {
    if d < 10 {
        (d + 48) as u8 as char
    } else {
        (d + 87) as u8 as char
    }
}

/// The last `k` hexadecimal digits of `n`.
pub open spec fn hex(n: nat, k: nat) -> Seq<char>
    decreases k,
{
    if k == 0 {
        Seq::empty()
    } else {
        hex(n / 16, (k - 1) as nat).push(hex_digit((n % 16) as int))
    }
}

/// A UUID as 32 lower-case hexadecimal digits in groups of 8, 4, 4, 4 and 12.
pub open spec fn uuid_text(id: u128) -> Seq<char> {
    let h = hex(id as nat, 32);
    h.subrange(0, 8) + seq!['-'] + h.subrange(8, 12) + seq!['-'] + h.subrange(12, 16) + seq!['-']
        + h.subrange(16, 20) + seq!['-'] + h.subrange(20, 32)
}

/// `Uuid::parse_str`, with the UUID as its 128-bit number. The result is named; the hyphenated
/// form that `uuid_text` describes is read back as the number it was made from.
#[verifier::external_body]
pub(crate) fn parse_uuid(s: &str) -> (id: Option<u128>)
    ensures
        id == uuid_parsed(s@),
        forall|n: u128| s@ == #[trigger] uuid_text(n) ==> id == Some(n),
{
    uuid::Uuid::parse_str(s).ok().map(|id| id.as_u128())
}

/// `Display` of `Uuid`, through `to_string`: the hyphenated lower-case form.
#[verifier::external_body]
pub(crate) fn format_uuid(id: u128) -> (text: String)
    ensures
        text@ == uuid_text(id),
{
    uuid::Uuid::from_u128(id).to_string()
}

/// Whether a number is a random UUID: of the version 4 and the standard variant.
pub open spec fn is_random_uuid(id: u128) -> bool {
    (id / 0x1000_0000_0000_0000_0000) % 16 == 4 && (id / 0x4000_0000_0000_0000) % 4 == 2
}

/// `Uuid::new_v4`, as the UUID's 128-bit number. Which one comes is chance: that no two are the
/// same is not stated. The crate panics where the system has no random bytes to give.
#[verifier::external_body]
pub(crate) fn new_uuid() -> (id: u128)
    ensures
        is_random_uuid(id),
{
    uuid::Uuid::new_v4().as_u128()
}

proof fn lemma_hex_len(n: nat, k: nat)
    ensures
        hex(n, k).len() == k,
    decreases k,
{
    if k > 0 {
        lemma_hex_len(n / 16, (k - 1) as nat);
    }
}

proof fn lemma_hex_injective(a: nat, b: nat, k: nat)
    requires
        hex(a, k) == hex(b, k),
        a < vstd::arithmetic::power::pow(16, k),
        b < vstd::arithmetic::power::pow(16, k),
    ensures
        a == b,
    decreases k,
{
    broadcast use vstd::arithmetic::power::lemma_pow0;

    if k > 0 {
        let j = (k - 1) as nat;
        vstd::arithmetic::power::lemma_pow_adds(16, 1, j);
        vstd::arithmetic::power::lemma_pow1(16);
        let x = hex(a / 16, j);
        let y = hex(b / 16, j);
        let c = hex_digit((a % 16) as int);
        let d = hex_digit((b % 16) as int);
        assert(x.push(c) == y.push(d));
        assert(x.push(c).drop_last() == x && y.push(d).drop_last() == y);
        assert(x.push(c).last() == c && y.push(d).last() == d);
        assert(a % 16 == b % 16);
        lemma_hex_injective(a / 16, b / 16, j);
    }
}

/// Different UUIDs are written differently, so a file named after one never stands for another.
pub proof fn uuid_text_is_injective(a: u128, b: u128)
    requires
        uuid_text(a) == uuid_text(b),
    ensures
        a == b,
{
    let x = hex(a as nat, 32);
    let y = hex(b as nat, 32);
    lemma_hex_len(a as nat, 32);
    lemma_hex_len(b as nat, 32);
    let s = uuid_text(a);
    let t = uuid_text(b);
    assert forall|i: int| 0 <= i < 32 implies x[i] == y[i] by {
        let at = if i < 8 {
            i
        } else if i < 12 {
            i + 1
        } else if i < 16 {
            i + 2
        } else if i < 20 {
            i + 3
        } else {
            i + 4
        };
        assert(s[at] == x[i]);
        assert(t[at] == y[i]);
    }
    assert(x =~= y);
    assert(vstd::arithmetic::power::pow(16, 32) == 0x1_0000_0000_0000_0000_0000_0000_0000_0000)
        by {
        reveal_with_fuel(vstd::arithmetic::power::pow, 9);
        let p8 = vstd::arithmetic::power::pow(16, 8);
        assert(p8 == 0x1_0000_0000);
        vstd::arithmetic::power::lemma_pow_adds(16, 8, 8);
        let p16 = vstd::arithmetic::power::pow(16, 16);
        assert(p16 == 0x1_0000_0000_0000_0000) by (nonlinear_arith)
            requires
                p16 == p8 * p8,
                p8 == 0x1_0000_0000,
        ;
        vstd::arithmetic::power::lemma_pow_adds(16, 16, 16);
        let p32 = vstd::arithmetic::power::pow(16, 32);
        assert(p32 == 0x1_0000_0000_0000_0000_0000_0000_0000_0000) by (nonlinear_arith)
            requires
                p32 == p16 * p16,
                p16 == 0x1_0000_0000_0000_0000,
        ;
    }
    lemma_hex_injective(a as nat, b as nat, 32);
}

/// A UUID is written with thirty-six characters, dashes between its groups and hexadecimal digits
/// in lower case everywhere else.
pub proof fn uuid_has_its_shape(id: u128, i: int)
    requires
        0 <= i < 36,
    ensures
        uuid_text(id).len() == 36,
        uuid_text(id)[i] == '-' <==> i == 8 || i == 13 || i == 18 || i == 23,
        uuid_text(id)[i] == '-' || '0' <= uuid_text(id)[i] <= '9' || 'a' <= uuid_text(id)[i] <= 'f',
{
    let h = hex(id as nat, 32);
    lemma_hex_len(id as nat, 32);
    let at = if i < 8 {
        i
    } else if i < 13 {
        i - 1
    } else if i < 18 {
        i - 2
    } else if i < 23 {
        i - 3
    } else {
        i - 4
    };
    if 0 <= at < 32 {
        lemma_hex_digits(id as nat, 32, at);
    }
}

proof fn lemma_hex_digits(n: nat, k: nat, i: int)
    requires
        0 <= i < k,
    ensures
        hex(n, k).len() == k,
        '0' <= hex(n, k)[i] <= '9' || 'a' <= hex(n, k)[i] <= 'f',
    decreases k,
{
    lemma_hex_len(n, k);
    lemma_hex_len(n / 16, (k - 1) as nat);
    if i < k - 1 {
        lemma_hex_digits(n / 16, (k - 1) as nat, i);
    }
}

} // verus!
