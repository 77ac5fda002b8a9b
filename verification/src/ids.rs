//! Random identifiers.

use vstd::prelude::*;

use crate::text::digit;

verus! {

/// The hexadecimal digit for a number below sixteen.
pub open spec fn hex_digit(n: nat) -> char {
    if n < 10 {
        digit(n)
    } else {
        (n - 10 + 'a' as nat) as char
    }
}

/// The last `len` hexadecimal digits of `n`, with leading zeros.
pub open spec fn hex(n: nat, len: nat) -> Seq<char>
    decreases len,
{
    if len == 0 {
        Seq::empty()
    } else {
        hex(n / 16, (len - 1) as nat).push(hex_digit(n % 16))
    }
}

/// The digits of a UUID, without hyphens.
pub open spec fn uuid_digits(id: u128) -> Seq<char> {
    hex(id as nat, 32)
}

/// A UUID in its usual form: groups of 8, 4, 4, 4 and 12 digits.
pub open spec fn uuid_text(id: u128) -> Seq<char> {
    let d = uuid_digits(id);
    d.subrange(0, 8) + seq!['-'] + d.subrange(8, 12) + seq!['-'] + d.subrange(12, 16) + seq!['-']
        + d.subrange(16, 20) + seq!['-'] + d.subrange(20, 32)
}

/// Whether the bits are set that mark a UUID of version 4.
pub open spec fn is_version_4(id: u128) -> bool {
    (id / 0x1000_0000_0000_0000_0000) % 16 == 4 && (id / 0x4000_0000_0000_0000) % 4 == 2
}

/// `Uuid::new_v4` gives a random number with the bits set that mark a UUID of
/// version 4; nothing else is claimed of it.
#[verifier::external_body]
pub(crate) fn random_uuid() -> (r: u128)
    ensures
        is_version_4(r),
{
    uuid::Uuid::new_v4().as_u128()
}

/// `Uuid` displays as its digits, small letters, in groups with hyphens.
#[verifier::external_body]
pub(crate) fn hyphenated(id: u128) -> (r: String)
    ensures
        r@ == uuid_text(id),
{
    uuid::Uuid::from_u128(id).to_string()
}

/// `Uuid::simple` displays as the digits, small letters, without hyphens.
#[verifier::external_body]
pub(crate) fn simple(id: u128) -> (r: String)
    ensures
        r@ == uuid_digits(id),
{
    uuid::Uuid::from_u128(id).simple().to_string()
}

/// A name for a new connection: a random UUID in its usual form.
pub fn connection_id() -> (r: String)
    ensures
        exists|id: u128| is_version_4(id) && r@ == #[trigger] uuid_text(id),
{
    let id: u128 = random_uuid();
    hyphenated(id)
}

// Laws

spec fn power16(len: nat) -> nat
    decreases len,
{
    if len == 0 {
        1
    } else {
        16 * power16((len - 1) as nat)
    }
}

proof fn lemma_hex_tells_numbers_apart(a: nat, b: nat, len: nat)
    requires
        a < power16(len),
        b < power16(len),
        hex(a, len) == hex(b, len),
    ensures
        a == b,
    decreases len,
{
    if len > 0 {
        let x = hex(a, len);
        let y = hex(b, len);
        assert(x.drop_last() =~= hex(a / 16, (len - 1) as nat));
        assert(y.drop_last() =~= hex(b / 16, (len - 1) as nat));
        lemma_hex_tells_numbers_apart(a / 16, b / 16, (len - 1) as nat);
        assert(x.last() == y.last());
    }
}

proof fn lemma_hex_len(n: nat, len: nat)
    ensures
        hex(n, len).len() == len,
    decreases len,
{
    if len > 0 {
        lemma_hex_len(n / 16, (len - 1) as nat);
    }
}

/// Different UUIDs have different texts, in either form; the texts have 36 and
/// 32 characters.
pub proof fn law_uuid_texts_differ(a: u128, b: u128)
    ensures
        uuid_text(a).len() == 36,
        uuid_digits(a).len() == 32,
        uuid_text(a) == uuid_text(b) ==> a == b,
        uuid_digits(a) == uuid_digits(b) ==> a == b,
{
    lemma_hex_len(a as nat, 32);
    lemma_hex_len(b as nat, 32);
    assert(power16(32) == 0x1_0000_0000_0000_0000_0000_0000_0000_0000) by {
        reveal_with_fuel(power16, 33);
    }
    if uuid_text(a) == uuid_text(b) {
        let x = uuid_text(a);
        let y = uuid_text(b);
        let d = uuid_digits(a);
        let e = uuid_digits(b);
        assert forall|i: int| 0 <= i < 32 implies d[i] == e[i] by {
            let at = if i < 8 {
                i
            } else if i < 12 {
                i + 1
            } else if i < 16 {
                i + 2
            } else if i < 20 {
                i + 3
            } else {
                i + 4
            };
            assert(x[at] == d[i]);
            assert(y[at] == e[i]);
        }
        assert(d =~= e);
    }
    if uuid_digits(a) == uuid_digits(b) {
        lemma_hex_tells_numbers_apart(a as nat, b as nat, 32);
    }
}

} // verus!
