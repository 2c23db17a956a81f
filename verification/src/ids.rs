//! Identifiers of profiles, sessions, tunnels, servers and macros.

use vstd::arithmetic::power::*;
use vstd::prelude::*;

use crate::text;

verus! {

/// A UUID, as the number that its sixteen bytes make up, high byte first.
pub type Id = u128;

/// Whether an id carries the version and variant of a random (version 4) UUID.
pub open spec fn is_random_id(id: Id) -> bool {
    &&& (id as int / 0x1000_0000_0000_0000_0000) % 16 == 4
    &&& (id as int / 0x4000_0000_0000_0000) % 4 == 2
}

/// Draws a new id with `uuid::Uuid::new_v4`. The id is random but for its
/// version and variant; that no two draws coincide is not stated. A system that
/// has no random numbers to give makes `new_v4` panic.
#[verifier::external_body]
pub(crate) fn new_id() -> (r: Id)
    ensures
        is_random_id(r),
{
    uuid::Uuid::new_v4().as_u128()
}

/// Hexadecimal digit `k` of an id, counted from the left.
pub open spec fn id_nibble(id: Id, k: int) -> int {
    (id as int / pow(16, (31 - k) as nat)) % 16
}

/// The 32 hexadecimal digits of an id.
pub open spec fn id_digits(id: Id) -> Seq<char> {
    Seq::new(32, |k: int| text::hex_char(id_nibble(id, k)))
}

/// An id in its usual text form: groups of 8, 4, 4, 4 and 12 lower-case
/// hexadecimal digits with hyphens between them.
pub open spec fn id_text(id: Id) -> Seq<char> {
    let d = id_digits(id);
    d.subrange(0, 8) + "-"@ + d.subrange(8, 12) + "-"@ + d.subrange(12, 16) + "-"@ + d.subrange(
        16,
        20,
    ) + "-"@ + d.subrange(20, 32)
}

/// Formats an id with the `Display` impl of `uuid::Uuid`, which writes the
/// hyphenated lower-case form.
#[verifier::external_body]
pub(crate) fn format_id(id: Id) -> (r: String)
    ensures
        r@ == id_text(id),
{
    uuid::Uuid::from_u128(id).to_string()
}

proof fn lemma_hex_char_injective(a: int, b: int)
    requires
        0 <= a < 16,
        0 <= b < 16,
        text::hex_char(a) == text::hex_char(b),
    ensures
        a == b,
{
}

proof fn lemma_digits_at(id: Id, k: int)
    requires
        0 <= k < 32,
    ensures
        id_text(id)[k + (if k < 8 {
            0int
        } else if k < 12 {
            1
        } else if k < 16 {
            2
        } else if k < 20 {
            3
        } else {
            4
        })] == id_digits(id)[k],
{
    reveal_strlit("-");
}

proof fn lemma_leading_digits(a: Id, b: Id, k: int)
    requires
        0 <= k <= 32,
        id_text(a) == id_text(b),
    ensures
        a as int / pow(16, (32 - k) as nat) == b as int / pow(16, (32 - k) as nat),
    decreases k,
{
    if k == 0 {
        lemma_pow_positive(16, 32);
        assert(pow(16, 32) == 0x1_0000_0000_0000_0000_0000_0000_0000_0000) by {
            lemma_pow_adds(16, 8, 8);
            lemma_pow_adds(16, 16, 16);
            let p8 = pow(16, 8);
            assert(p8 == 0x1_0000_0000) by {
                reveal_with_fuel(pow, 9);
            }
            let p16 = pow(16, 16);
            assert(p16 == 0x1_0000_0000_0000_0000) by (nonlinear_arith)
                requires
                    p16 == p8 * p8,
                    p8 == 0x1_0000_0000,
            ;
            let p32 = pow(16, 32);
            assert(p32 == 0x1_0000_0000_0000_0000_0000_0000_0000_0000) by (nonlinear_arith)
                requires
                    p32 == p16 * p16,
                    p16 == 0x1_0000_0000_0000_0000,
            ;
        }
        assert(a as int / pow(16, 32) == 0);
        assert(b as int / pow(16, 32) == 0);
    } else {
        lemma_leading_digits(a, b, k - 1);
        let low = pow(16, (32 - k) as nat);
        let high = pow(16, (33 - k) as nat);
        lemma_pow_positive(16, (32 - k) as nat);
        lemma_pow_adds(16, 1, (32 - k) as nat);
        lemma_pow1(16);
        assert(high == low * 16) by (nonlinear_arith)
            requires
                high == 16 * low,
        ;
        lemma_digits_at(a, k - 1);
        lemma_digits_at(b, k - 1);
        let da = id_nibble(a, k - 1);
        let db = id_nibble(b, k - 1);
        lemma_hex_char_injective(da, db);
        vstd::arithmetic::div_mod::lemma_div_denominator(a as int, low, 16);
        vstd::arithmetic::div_mod::lemma_div_denominator(b as int, low, 16);
        assert(a as int / low == 16 * (a as int / high) + da);
        assert(b as int / low == 16 * (b as int / high) + db);
    }
}

/// Ids that read the same are the same: text made from ids never mixes up two
/// entities.
pub proof fn law_id_text_tells_ids_apart(a: Id, b: Id)
    requires
        id_text(a) == id_text(b),
    ensures
        a == b,
{
    lemma_leading_digits(a, b, 32);
    lemma_pow0(16);
}

} // verus!
