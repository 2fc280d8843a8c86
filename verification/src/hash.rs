//! Token-identity hashing: a fixed-length truncation of a cryptographic
//! digest of a denomination trace string.

use sha2::Digest;
use vstd::prelude::*;
use vstd::string::StringExecFns;

use crate::key::hex_chars;
use crate::key::bytes_to_hex;
use crate::key::addr_valid;
use crate::key::Address;
use crate::key::AddrV;
use crate::key::IbcTokenHash;
use crate::ident::PrefixedClassId;
use crate::ident::TokenId;

verus! {

/// The SHA-256 digest of the UTF-8 bytes of a string.
pub uninterp spec fn sha256_of_str(s: Seq<char>) -> Seq<u8>;

/// Relies on sha2's Sha256: the digest is 32 bytes long and depends on the
/// input characters alone.
#[verifier::external_body]
fn sha256_str(s: &str) -> (r: Vec<u8>)
    ensures
        r@ == sha256_of_str(s@),
        r@.len() == 32,
{
    let digest = sha2::Sha256::digest(s.as_bytes());
    digest.as_slice().to_vec()
}

/// The token identity of a denomination trace: the first twenty bytes of its
/// digest.
pub open spec fn token_hash_of(s: Seq<char>) -> Seq<u8> {
    sha256_of_str(s).take(IbcTokenHash::spec_len() as int)
}

/// The same trace always yields the same token identity; truncation never
/// uses a separate shorter hash function.
pub proof fn lemma_hash_deterministic(s1: Seq<char>, s2: Seq<char>)
    requires
        s1 == s2,
    ensures
        token_hash_of(s1) == token_hash_of(s2),
{
}

/// Hashes a denomination trace into its fixed-length token identity.
pub fn calc_ibc_token_hash(denom: &str) -> (h: IbcTokenHash)
    ensures
        h@ == token_hash_of(denom@),
        h.wf(),
{
    let digest = sha256_str(denom);
    let mut out: Vec<u8> = Vec::new();
    let mut i: usize = 0;
    while i < 20
        invariant
            i <= 20,
            digest@.len() == 32,
            digest@ == sha256_of_str(denom@),
            out@ == digest@.take(i as int),
        decreases 20 - i,
    {
        let b = digest[i];
        out.push(b);
        proof {
            assert(out@ =~= digest@.take(i + 1));
        }
        i += 1;
    }
    IbcTokenHash(out)
}

/// The textual (hexadecimal) form of a denomination trace's token identity.
pub fn calc_hash(denom: &str) -> (r: String)
    ensures
        r@ == hex_chars(token_hash_of(denom@)),
{
    let h = calc_ibc_token_hash(denom);
    bytes_to_hex(&h.0)
}

/// The stable internal address for a denomination trace.
pub fn ibc_token(denom: &str) -> (a: Address)
    ensures
        a@ == AddrV::IbcToken(token_hash_of(denom@)),
        addr_valid(a@),
{
    Address::IbcToken(calc_ibc_token_hash(denom))
}

/// The composite trace hashed for an NFT: `<classId>/<tokenId>`.
pub open spec fn nft_trace(class_id: Seq<char>, token_id: Seq<char>) -> Seq<char> {
    class_id + seq!['/'] + token_id
}

/// The stable internal address for an NFT class and token pair.
pub fn ibc_token_for_nft(class_id: &PrefixedClassId, token_id: &TokenId) -> (a: Address)
    ensures
        a@ == AddrV::IbcToken(token_hash_of(nft_trace(class_id@, token_id@))),
        addr_valid(a@),
{
    proof {
        reveal_strlit("/");
    }
    let trace = class_id.0.clone().concat("/").concat(token_id.as_str());
    proof {
        assert(trace@ =~= nft_trace(class_id@, token_id@));
    }
    ibc_token(trace.as_str())
}

} // verus!
