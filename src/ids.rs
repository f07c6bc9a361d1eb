use std::collections::HashMap;
use vstd::prelude::*;

verus! {

broadcast use vstd::std_specs::hash::group_hash_axioms;

/// Relies on `uuid::Uuid::new_v4` for a random identifier, read back in its
/// 128-bit integer form with `Uuid::as_u128`. Nothing is promised of the value.
#[verifier::external_body]
pub(crate) fn random_id() -> (r: u128) {
    uuid::Uuid::new_v4().as_u128()
}

/// The canonical text of a UUID given by its 128-bit integer form.
pub uninterp spec fn uuid_text(id: u128) -> Seq<char>;

/// Relies on `uuid::Uuid::from_u128` and the `Display` impl of `uuid::Uuid`:
/// the hyphenated text of the identifier, a function of the value alone.
#[verifier::external_body]
pub(crate) fn id_text(id: u128) -> (r: String)
    ensures
        r@ == uuid_text(id),
{
    uuid::Uuid::from_u128(id).to_string()
}

/// A key absent from `m`, equal to `seed` whenever `seed` itself is absent.
///
/// Candidates are `seed ^ 0`, `seed ^ 1`, ...; they are pairwise distinct, so
/// among the first `m.len() + 1` of them at least one is free.
pub fn fresh_key<V>(m: &HashMap<u128, V>, seed: u128) -> (r: u128)
    ensures
        !m@.contains_key(r),
        !m@.contains_key(seed) ==> r == seed,
{
    let len = m.len();
    let mut i: usize = 0;
    let ghost mut tried: Set<u128> = Set::empty();
    proof {
        assert(m@.dom().finite());
    }
    while i <= len
        invariant
            len == m@.len(),
            m@.dom().finite(),
            tried.finite(),
            tried.len() == i,
            tried.subset_of(m@.dom()),
            forall|x: u128| #[trigger] tried.contains(x) ==> (x ^ seed) < i as u128,
            i == 0 || m@.contains_key(seed),
        decreases len + 1 - i,
    {
        let cand = seed ^ (i as u128);
        if !m.contains_key(&cand) {
            proof {
                if i > 0 {
                    assert(seed ^ 0u128 == seed) by (bit_vector);
                }
                if !m@.contains_key(seed) {
                    assert(seed ^ 0u128 == seed) by (bit_vector);
                }
            }
            return cand;
        }
        proof {
            let k = i as u128;
            assert((cand ^ seed) == k) by (bit_vector)
                requires
                    cand == seed ^ k,
            ;
            assert(!tried.contains(cand));
            assert(i == 0 ==> cand == seed) by {
                assert(seed ^ 0u128 == seed) by (bit_vector);
            }
            tried = tried.insert(cand);
            vstd::set_lib::lemma_len_subset(tried, m@.dom());
        }
        i = i + 1;
    }
    proof {
        vstd::set_lib::lemma_len_subset(tried, m@.dom());
    }
    seed
}

} // verus!
