use digest_tool::alg::{all_algs, Alg};
use digest_tool::hashing::{hash, hasher, MultiHasher};
use digest_tool::hex::encode_hex;

fn hex_of(bytes: &[u8]) -> String {
    String::from_utf8(encode_hex(bytes)).unwrap()
}

fn digest_hex(alg: Alg, data: &[u8]) -> String {
    let r = hash(&[alg], data);
    assert_eq!(r.len(), 1);
    hex_of(&r[0])
}

#[test]
fn md5_known_values() {
    assert_eq!(digest_hex(Alg::Md5, b""), "d41d8cd98f00b204e9800998ecf8427e");
    assert_eq!(digest_hex(Alg::Md5, b"abc"), "900150983cd24fb0d6963f7d28e17f72");
}

#[test]
fn sha1_known_value() {
    assert_eq!(digest_hex(Alg::Sha1, b"abc"), "a9993e364706816aba3e25717850c26c9cd0d89d");
}

#[test]
fn sha2_known_values() {
    assert_eq!(
        digest_hex(Alg::Sha224, b"abc"),
        "23097d223405d8228642a477bda255b32aadbce4bda0b3f7e36c9da7"
    );
    assert_eq!(
        digest_hex(Alg::Sha256, b"abc"),
        "ba7816bf8f01cfea414140de5dae2223b00361a396177a9cb410ff61f20015ad"
    );
    assert_eq!(
        digest_hex(Alg::Sha384, b"abc"),
        "cb00753f45a35e8bb5a03d699ac65007272c32ab0eded1631a8b605a43ff5bed8086072ba1e7cc2358baeca134c825a7"
    );
    assert_eq!(
        digest_hex(Alg::Sha512, b"abc"),
        "ddaf35a193617abacc417349ae20413112e6fa4e89a97ea20a9eeee64b55d39a2192992a274fc1a836ba3c23a3feebbd454d4423643ce80e2a9ac94fa54ca49f"
    );
    assert_eq!(
        digest_hex(Alg::Sha512_224, b"abc"),
        "4634270f707b6a54daae7530460842e20e37ed265ceee9a43e8924aa"
    );
    assert_eq!(
        digest_hex(Alg::Sha512_256, b"abc"),
        "53048e2681941ef99b2e29b76b4c7dabe4c2d0c634fc6d46e0e2f13107e7af23"
    );
}

#[test]
fn sha3_known_values() {
    assert_eq!(
        digest_hex(Alg::Sha3_224, b"abc"),
        "e642824c3f8cf24ad09234ee7d3c766fc9a3a5168d0c94ad73b46fdf"
    );
    assert_eq!(
        digest_hex(Alg::Sha3_256, b"abc"),
        "3a985da74fe225b2045c172d6bd390bd855f086e3e9d525b46bfe24511431532"
    );
    assert_eq!(
        digest_hex(Alg::Sha3_384, b"abc"),
        "ec01498288516fc926459f58e2c6ad8df9b473cb0fc08c2596da7cf0e49be4b298d88cea927ac7f539f1edf228376d25"
    );
    assert_eq!(
        digest_hex(Alg::Sha3_512, b"abc"),
        "b751850b1a57168a5693cd924b6b096e08f621827444f70d884f5d0240d2712e10e116e9192af3c91a7ec57647e3934057340b4cf408d5a56592f8274eec53f0"
    );
}

#[test]
fn digest_lengths_match_algorithms() {
    for a in all_algs() {
        let r = hash(&[a], b"some data");
        assert_eq!(r[0].len(), a.output_len());
    }
}

#[test]
fn several_algorithms_in_one_pass() {
    let algs = [Alg::Md5, Alg::Sha256, Alg::Md5];
    let r = hash(&algs, b"abc");
    assert_eq!(r.len(), 3);
    assert_eq!(hex_of(&r[0]), "900150983cd24fb0d6963f7d28e17f72");
    assert_eq!(
        hex_of(&r[1]),
        "ba7816bf8f01cfea414140de5dae2223b00361a396177a9cb410ff61f20015ad"
    );
    assert_eq!(r[0], r[2]);
}

#[test]
fn no_algorithms_give_no_digests() {
    assert!(hash(&[], b"abc").is_empty());
}

#[test]
fn chunked_feeding_equals_whole_input() {
    let data: Vec<u8> = (0..10000u32).map(|i| (i * 7 % 251) as u8).collect();
    let algs = all_algs();
    let whole = hash(&algs, &data);
    let mut h = MultiHasher::new(&algs);
    for chunk in data.chunks(333) {
        h.update(chunk);
    }
    assert_eq!(h.finalize(), whole);
}

#[test]
fn empty_updates_change_nothing() {
    let mut h = MultiHasher::new(&[Alg::Sha1]);
    h.update(b"");
    h.update(b"abc");
    h.update(b"");
    let r = h.finalize();
    assert_eq!(hex_of(&r[0]), "a9993e364706816aba3e25717850c26c9cd0d89d");
}


#[test]
fn single_state_fed_in_chunks() {
    let mut h = hasher(Alg::Sha256);
    h.update(b"a");
    h.update(b"");
    h.update(b"bc");
    assert_eq!(
        hex_of(&h.finalize()),
        "ba7816bf8f01cfea414140de5dae2223b00361a396177a9cb410ff61f20015ad"
    );
}

#[test]
fn fresh_states_share_nothing() {
    let mut h1 = hasher(Alg::Md5);
    let h2 = hasher(Alg::Md5);
    h1.update(b"abc");
    assert_eq!(hex_of(&h2.finalize()), "d41d8cd98f00b204e9800998ecf8427e");
    assert_eq!(hex_of(&h1.finalize()), "900150983cd24fb0d6963f7d28e17f72");
}
