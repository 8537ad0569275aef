//! Program-derived addresses.
use vstd::prelude::*;

verus! {

/// The program-derived address and bump seed that Solana's address search
/// finds for `seeds` under `program_id`: the search tries each bump seed from
/// 255 downwards and takes the first whose hash lies off the ed25519 curve.
/// `None` when no bump seed works or the seeds exceed the limits.
pub uninterp spec fn program_address(seeds: Seq<Seq<u8>>, program_id: Seq<u8>) -> Option<
    (Seq<u8>, u8),
>;

/// Seeds that leave room for the bump seed: fewer than 16 of them, none
/// longer than 32 bytes.
pub open spec fn seeds_within_limits(seeds: Seq<Seq<u8>>) -> bool {
    &&& seeds.len() < 16
    &&& forall|i: int| 0 <= i < seeds.len() ==> #[trigger] seeds[i].len() <= 32
}

/// Calls `Pubkey::try_find_program_address` of solana-pubkey (re-exported by
/// solana-program). The contract claims that the result is a function of the
/// seeds and the program id alone, named `program_address`, and, as the
/// source shows (`create_program_address` rejects the seeds and the search
/// stops), that it is `None` whenever the seeds with the added bump seed
/// exceed 16 seeds or a seed exceeds 32 bytes. Which address comes out is
/// not stated: it rests on SHA-256 and the curve test.
#[verifier::external_body]
pub(crate) fn try_find_program_address(seeds: &Vec<Vec<u8>>, program_id: &[u8; 32]) -> (r: Option<
    ([u8; 32], u8),
>)
    ensures
        match r {
            Some((k, b)) => program_address(seeds.deep_view(), program_id@) == Some((k@, b)),
            None => program_address(seeds.deep_view(), program_id@) is None,
        },
        !seeds_within_limits(seeds.deep_view()) ==> r is None,
{
    let refs: Vec<&[u8]> = seeds.iter().map(|s| s.as_slice()).collect();
    let id = solana_program::pubkey::Pubkey::new_from_array(*program_id);
    solana_program::pubkey::Pubkey::try_find_program_address(&refs, &id).map(
        |(k, b)| (k.to_bytes(), b),
    )
}

} // verus!
