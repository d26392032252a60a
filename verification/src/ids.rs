//! Identifiers of questions.

use vstd::prelude::*;

verus! {

/// Whether `id` has the layout of a random (version 4) UUID: the version
/// field holds 4 and the variant field holds the two bits `10`.
pub open spec fn is_random_uuid(id: u128) -> bool {
    id & 0x0000_0000_0000_f000_c000_0000_0000_0000u128
        == 0x0000_0000_0000_4000_8000_0000_0000_0000u128
}

/// Whether `id` has the layout of a random UUID.
pub fn has_random_uuid_layout(id: u128) -> (r: bool)
    ensures
        r == is_random_uuid(id),
{
    id & 0x0000_0000_0000_f000_c000_0000_0000_0000u128
        == 0x0000_0000_0000_4000_8000_0000_0000_0000u128
}

/// Draws an identifier with `uuid::Uuid::new_v4` and hands it out as the
/// 128-bit number that `Uuid::as_u128` gives for it.
///
/// Trusted: the value comes from the system's source of randomness, so all
/// that is claimed of it is the layout that `new_v4` stamps on every value.
/// Two calls may give the same identifier. `new_v4` panics where the system
/// cannot supply random bytes.
#[verifier::external_body]
pub(crate) fn random_id() -> (id: u128)
    ensures
        is_random_uuid(id),
{
    uuid::Uuid::new_v4().as_u128()
}

/// The `k`-th of the identifiers that stand in for a draw that cannot be
/// used: the layout of a random UUID around the number `k`, whose low 62
/// bits fill the low bits and whose next two bits follow the variant field.
pub open spec fn spare_id(k: u128) -> u128 {
    0x0000_0000_0000_4000_8000_0000_0000_0000u128 | (k & 0x3fff_ffff_ffff_ffffu128) | ((k
        >> 62) << 64)
}

/// The `k`-th spare identifier.
pub fn spare(k: usize) -> (id: u128)
    ensures
        id == spare_id(k as u128),
        is_random_uuid(id),
{
    let n = k as u128;
    let id = 0x0000_0000_0000_4000_8000_0000_0000_0000u128 | (n & 0x3fff_ffff_ffff_ffffu128) | ((n
        >> 62) << 64);
    assert((0x0000_0000_0000_4000_8000_0000_0000_0000u128 | (n & 0x3fff_ffff_ffff_ffffu128) | ((n
        >> 62) << 64)) & 0x0000_0000_0000_f000_c000_0000_0000_0000u128
        == 0x0000_0000_0000_4000_8000_0000_0000_0000u128) by (bit_vector)
        requires
            n <= 0xffff_ffff_ffff_ffffu128,
    ;
    id
}

/// Different numbers below 2^64 have different spare identifiers.
pub proof fn lemma_spare_ids_differ(a: u128, b: u128)
    requires
        a <= 0xffff_ffff_ffff_ffffu128,
        b <= 0xffff_ffff_ffff_ffffu128,
        spare_id(a) == spare_id(b),
    ensures
        a == b,
{
    assert(a == b) by (bit_vector)
        requires
            a <= 0xffff_ffff_ffff_ffffu128,
            b <= 0xffff_ffff_ffff_ffffu128,
            (0x0000_0000_0000_4000_8000_0000_0000_0000u128 | (a & 0x3fff_ffff_ffff_ffffu128) | ((a
                >> 62) << 64)) == (0x0000_0000_0000_4000_8000_0000_0000_0000u128 | (b
                & 0x3fff_ffff_ffff_ffffu128) | ((b >> 62) << 64)),
    ;
}

/// The first `k` spare identifiers.
pub open spec fn spare_ids(k: nat) -> Set<u128>
    decreases k,
{
    if k == 0 {
        Set::empty()
    } else {
        spare_ids((k - 1) as nat).insert(spare_id((k - 1) as u128))
    }
}

/// The first `k` spare identifiers are `k` identifiers.
pub proof fn lemma_spare_ids_count(k: nat)
    requires
        k <= 0x1_0000_0000_0000_0000,
    ensures
        spare_ids(k).finite(),
        spare_ids(k).len() == k,
        forall|id: u128|
            spare_ids(k).contains(id) ==> exists|j: u128| j < k && #[trigger] spare_id(j) == id,
    decreases k,
{
    if k > 0 {
        let rest = (k - 1) as nat;
        lemma_spare_ids_count(rest);
        let last = spare_id(rest as u128);
        if spare_ids(rest).contains(last) {
            let j = choose|j: u128| j < rest && #[trigger] spare_id(j) == last;
            lemma_spare_ids_differ(j, rest as u128);
        }
        assert forall|id: u128| spare_ids(k).contains(id) implies exists|j: u128|
            j < k && #[trigger] spare_id(j) == id by {
            if id == last {
                assert(spare_id(rest as u128) == id);
            } else {
                let j = choose|j: u128| j < rest && #[trigger] spare_id(j) == id;
                assert(j < k && spare_id(j) == id);
            }
        }
    }
}

} // verus!
