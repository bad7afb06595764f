use vstd::prelude::*;
use crate::addrs::Address;

verus! {

/// Program id of the trading venue's on-chain program.
pub const ZO_PROGRAM_ID: [u8; 32] = [
    8, 102, 156, 145, 152, 84, 76, 31, 98, 219, 182, 78, 230, 104, 119, 206, 88, 67, 199, 68, 183,
    87, 93, 160, 189, 123, 145, 98, 82, 63, 99, 189,
];

/// Address of the venue's global state account.
pub const ZO_STATE_KEY: [u8; 32] = [
    89, 102, 140, 37, 98, 55, 40, 25, 123, 36, 31, 141, 159, 136, 142, 190, 86, 218, 169, 3, 110,
    67, 30, 151, 131, 188, 137, 73, 29, 67, 183, 141,
];

/// Program id of the venue's order-book (dex) program.
pub const ZO_DEX_PROGRAM_ID: [u8; 32] = [
    8, 65, 58, 166, 33, 49, 12, 31, 21, 179, 83, 91, 63, 61, 108, 211, 78, 30, 215, 70, 124, 241,
    232, 15, 248, 3, 81, 2, 100, 136, 132, 254,
];

/// Program id of the ledger's token program.
pub const TOKEN_PROGRAM_ID: [u8; 32] = [
    6, 221, 246, 225, 215, 101, 161, 147, 217, 203, 225, 70, 206, 235, 121, 172, 28, 180, 133, 237,
    95, 91, 55, 145, 58, 140, 245, 133, 126, 255, 0, 169,
];

/// Program id of the ledger's associated-token-account program.
pub const ATA_PROGRAM_ID: [u8; 32] = [
    140, 151, 37, 143, 78, 36, 137, 241, 187, 61, 16, 41, 20, 142, 13, 131, 11, 90, 19, 153, 218,
    255, 16, 132, 4, 142, 123, 216, 219, 233, 248, 89,
];

/// Address of the rent sysvar account.
pub const RENT_SYSVAR_ID: [u8; 32] = [
    6, 167, 213, 23, 25, 44, 92, 81, 33, 140, 201, 76, 61, 74, 241, 127, 88, 218, 238, 8, 155, 161,
    253, 68, 227, 219, 217, 138, 0, 0, 0, 0,
];

/// What the ledger's one-way program-derived-address rule assigns to a
/// seed list under a program id: the derived address where the rule admits
/// one, and nothing where it does not (no bump byte yields a valid
/// address, or a seed is over-long). It is a pure function of its inputs:
/// the same seeds and program always give the same outcome.
pub uninterp spec fn derived_address(seeds: Seq<Seq<u8>>, program: Seq<u8>) -> Option<Seq<u8>>;

/// What a caller-supplied address string decodes to, if it is well formed.
pub uninterp spec fn base58_decoded(s: Seq<char>) -> Option<Seq<u8>>;

/// Relies on `solana_sdk::pubkey::Pubkey::try_find_program_address`: the
/// derivation is a deterministic digest over the seed list and program id
/// alone, yielding a 32-byte address exactly when a bump byte produces a
/// valid one, and `None` otherwise — never a panic.
#[verifier::external_body]
fn try_derive_address(seeds: &Vec<Vec<u8>>, program: &Address) -> (r: Option<Address>)
    ensures
        r matches Some(a) ==> derived_address(seeds@.map_values(|v: Vec<u8>| v@), program@)
            == Some(a@),
        r is None ==> derived_address(seeds@.map_values(|v: Vec<u8>| v@), program@) is None,
{
    let refs: Vec<&[u8]> = seeds.iter().map(|v| v.as_slice()).collect();
    let program_key = solana_sdk::pubkey::Pubkey::new_from_array(program.bytes);
    solana_sdk::pubkey::Pubkey::try_find_program_address(&refs, &program_key).map(
        |kb: (solana_sdk::pubkey::Pubkey, u8)| Address { bytes: kb.0.to_bytes() },
    )
}

/// Relies on `solana_sdk::pubkey::Pubkey::from_str`: parses the canonical
/// base-58 spelling of a 32-byte address and rejects anything else.
#[verifier::external_body]
pub fn parse_address(s: &str) -> (r: Option<Address>)
    ensures
        r matches Some(a) ==> base58_decoded(s@) == Some(a@),
        r is None ==> base58_decoded(s@) is None,
{
    <solana_sdk::pubkey::Pubkey as core::str::FromStr>::from_str(s).ok().map(
        |p: solana_sdk::pubkey::Pubkey| Address { bytes: p.to_bytes() },
    )
}

/// The literal salt that marks a user's margin account derivation.
pub open spec fn margin_seed() -> Seq<u8> {
    seq![109u8, 97u8, 114u8, 103u8, 105u8, 110u8, 118u8, 49u8]
}

fn margin_seed_bytes() -> (v: Vec<u8>)
    ensures
        v@ == margin_seed(),
{
    // The ASCII bytes of the margin-account salt, "marginv1".
    let mut v: Vec<u8> = Vec::new();
    v.push(109);
    v.push(97);
    v.push(114);
    v.push(103);
    v.push(105);
    v.push(110);
    v.push(118);
    v.push(49);
    proof {
        assert(v@ =~= margin_seed());
    }
    v
}

/// Seed list of the program's state-signer address.
pub open spec fn state_signer_seeds() -> Seq<Seq<u8>> {
    seq![ZO_STATE_KEY@]
}

/// Seed list of a user's margin-account address.
pub open spec fn margin_seeds(authority: Seq<u8>) -> Seq<Seq<u8>> {
    seq![authority, ZO_STATE_KEY@, margin_seed()]
}

/// Seed list of the standard deterministic token account of a wallet and
/// mint under the token program.
pub open spec fn ata_seeds(wallet: Seq<u8>, mint: Seq<u8>) -> Seq<Seq<u8>> {
    seq![wallet, TOKEN_PROGRAM_ID@, mint]
}

/// Derives the program's state-signer address: succeeds exactly when the
/// derivation rule admits an address for its fixed seed tuple.
pub fn state_signer_address() -> (r: Option<Address>)
    ensures
        r matches Some(a) ==> derived_address(state_signer_seeds(), ZO_PROGRAM_ID@) == Some(a@),
        r is Some <==> derived_address(state_signer_seeds(), ZO_PROGRAM_ID@) is Some,
{
    let mut seeds: Vec<Vec<u8>> = Vec::new();
    let state = Address { bytes: ZO_STATE_KEY };
    seeds.push(state.to_vec());
    let program = Address { bytes: ZO_PROGRAM_ID };
    let r = try_derive_address(&seeds, &program);
    proof {
        assert(seeds@.map_values(|v: Vec<u8>| v@) =~= state_signer_seeds());
    }
    r
}

/// Derives a user's margin-account address from their signing identity:
/// succeeds exactly when the derivation rule admits an address for the
/// user's seed tuple.
pub fn margin_address(authority: &Address) -> (r: Option<Address>)
    ensures
        r matches Some(a) ==> derived_address(margin_seeds(authority@), ZO_PROGRAM_ID@) == Some(
            a@,
        ),
        r is Some <==> derived_address(margin_seeds(authority@), ZO_PROGRAM_ID@) is Some,
{
    let mut seeds: Vec<Vec<u8>> = Vec::new();
    seeds.push(authority.to_vec());
    let state = Address { bytes: ZO_STATE_KEY };
    seeds.push(state.to_vec());
    seeds.push(margin_seed_bytes());
    let program = Address { bytes: ZO_PROGRAM_ID };
    let r = try_derive_address(&seeds, &program);
    proof {
        assert(seeds@.map_values(|v: Vec<u8>| v@) =~= margin_seeds(authority@));
    }
    r
}

/// Derives the standard deterministic token account of a wallet and mint:
/// the associated-token derivation over wallet, token program and mint.
/// Succeeds exactly when the derivation rule admits an address for them.
pub fn ata_address(wallet: &Address, mint: &Address) -> (r: Option<Address>)
    ensures
        r matches Some(a) ==> derived_address(ata_seeds(wallet@, mint@), ATA_PROGRAM_ID@) == Some(
            a@,
        ),
        r is Some <==> derived_address(ata_seeds(wallet@, mint@), ATA_PROGRAM_ID@) is Some,
{
    let mut seeds: Vec<Vec<u8>> = Vec::new();
    seeds.push(wallet.to_vec());
    let token = Address { bytes: TOKEN_PROGRAM_ID };
    seeds.push(token.to_vec());
    seeds.push(mint.to_vec());
    let program = Address { bytes: ATA_PROGRAM_ID };
    let r = try_derive_address(&seeds, &program);
    proof {
        assert(seeds@.map_values(|v: Vec<u8>| v@) =~= ata_seeds(wallet@, mint@));
    }
    r
}

} // verus!
