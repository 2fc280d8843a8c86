use sha2::Digest;

use ibc_storage::hash::calc_hash;
use ibc_storage::hash::calc_ibc_token_hash;
use ibc_storage::hash::ibc_token;
use ibc_storage::hash::ibc_token_for_nft;
use ibc_storage::ident::PrefixedClassId;
use ibc_storage::ident::TokenId;
use ibc_storage::key::bytes_to_hex;
use ibc_storage::key::Address;

#[test]
fn hash_matches_truncated_sha256() {
    let trace = "transfer/channel-0/uatom";
    let full = sha2::Sha256::digest(trace.as_bytes());
    let h = calc_ibc_token_hash(trace);
    assert_eq!(h.0.len(), 20);
    assert_eq!(&h.0[..], &full[..20]);
}

#[test]
fn hash_is_deterministic() {
    let a = calc_ibc_token_hash("transfer/channel-0/uatom");
    let b = calc_ibc_token_hash("transfer/channel-0/uatom");
    assert_eq!(a, b);
    assert_eq!(
        calc_hash("transfer/channel-0/uatom"),
        calc_hash("transfer/channel-0/uatom")
    );
}

#[test]
fn hash_distinct_on_corpus() {
    let corpus = [
        "transfer/channel-0/uatom",
        "transfer/channel-1/uatom",
        "transfer/channel-0/uosmo",
        "uatom",
        "",
        "transfer/channel-0/transfer/channel-5/uatom",
    ];
    for (i, a) in corpus.iter().enumerate() {
        for b in corpus.iter().skip(i + 1) {
            assert_ne!(calc_hash(a), calc_hash(b));
        }
    }
}

#[test]
fn calc_hash_is_lowercase_hex_of_hash() {
    let trace = "transfer/channel-0/uatom";
    let s = calc_hash(trace);
    assert_eq!(s.len(), 40);
    assert!(s.chars().all(|c| c.is_ascii_hexdigit() && !c.is_ascii_uppercase()));
    let full = sha2::Sha256::digest(trace.as_bytes());
    let expected: String = full[..20].iter().map(|b| format!("{:02x}", b)).collect();
    assert_eq!(s, expected);
}

#[test]
fn bytes_to_hex_renders_all_nibbles() {
    let v: Vec<u8> = vec![0x00, 0x1f, 0xa5, 0xff];
    assert_eq!(bytes_to_hex(&v), "001fa5ff");
}

#[test]
fn ibc_token_wraps_hash() {
    let trace = "transfer/channel-0/uatom";
    match ibc_token(trace) {
        Address::IbcToken(h) => assert_eq!(h, calc_ibc_token_hash(trace)),
        other => panic!("unexpected address: {:?}", other),
    }
}

#[test]
fn ibc_token_for_nft_hashes_composite_trace() {
    let class = PrefixedClassId(String::from("transfer/channel-0/myclass"));
    let token = TokenId(String::from("token-1"));
    let a = ibc_token_for_nft(&class, &token);
    let b = ibc_token("transfer/channel-0/myclass/token-1");
    assert_eq!(a, b);
}
