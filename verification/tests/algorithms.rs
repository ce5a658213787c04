use digest_tool::alg::{alg_from_name, all_algs, default_algs, guess_alg, Alg};

#[test]
fn display_names() {
    assert_eq!(Alg::Md5.name(), "MD5");
    assert_eq!(Alg::Sha1.name(), "SHA1");
    assert_eq!(Alg::Sha224.name(), "SHA224");
    assert_eq!(Alg::Sha512_256.name(), "SHA512-256");
    assert_eq!(Alg::Sha3_384.name(), "SHA3-384");
}

#[test]
fn listed_names_in_order() {
    let names: Vec<&str> = all_algs().iter().map(|a| a.cli_name()).collect();
    assert_eq!(
        names,
        vec![
            "md5", "sha1", "sha224", "sha256", "sha384", "sha512", "sha512-224", "sha512-256",
            "sha3-224", "sha3-256", "sha3-384", "sha3-512"
        ]
    );
}

#[test]
fn default_algorithms() {
    assert_eq!(default_algs(), vec![Alg::Md5, Alg::Sha1, Alg::Sha256, Alg::Sha512]);
}

#[test]
fn names_and_aliases_parse_ignoring_case() {
    assert_eq!(alg_from_name("md5"), Some(Alg::Md5));
    assert_eq!(alg_from_name("MD5"), Some(Alg::Md5));
    assert_eq!(alg_from_name("Sha2-256"), Some(Alg::Sha256));
    assert_eq!(alg_from_name("SHA384"), Some(Alg::Sha384));
    assert_eq!(alg_from_name("sha512-224"), Some(Alg::Sha512_224));
    assert_eq!(alg_from_name("SHA3-512"), Some(Alg::Sha3_512));
    assert_eq!(alg_from_name("sha2-512"), Some(Alg::Sha512));
}

#[test]
fn unknown_names_do_not_parse() {
    assert_eq!(alg_from_name("sha2"), None);
    assert_eq!(alg_from_name("sha3-225"), None);
    assert_eq!(alg_from_name(""), None);
    assert_eq!(alg_from_name("sha256 "), None);
    assert_eq!(alg_from_name("ſha1"), None);
}

#[test]
fn every_name_reads_back() {
    for a in all_algs() {
        assert_eq!(alg_from_name(a.cli_name()), Some(a));
        assert_eq!(alg_from_name(a.name()), Some(a));
    }
}

#[test]
fn guess_by_digest_length() {
    assert_eq!(guess_alg(&"0".repeat(32)), Some(Alg::Md5));
    assert_eq!(guess_alg(&"0".repeat(40)), Some(Alg::Sha1));
    assert_eq!(guess_alg(&"0".repeat(56)), Some(Alg::Sha224));
    assert_eq!(guess_alg(&"0".repeat(64)), Some(Alg::Sha256));
    assert_eq!(guess_alg(&"0".repeat(96)), Some(Alg::Sha384));
    assert_eq!(guess_alg(&"0".repeat(128)), Some(Alg::Sha512));
    assert_eq!(guess_alg(&"0".repeat(33)), Some(Alg::Md5));
    assert_eq!(guess_alg(&"0".repeat(34)), None);
    assert_eq!(guess_alg(""), None);
}

#[test]
fn guess_counts_bytes_not_characters() {
    let s = "é".repeat(16);
    assert_eq!(guess_alg(&s), Some(Alg::Md5));
}

#[test]
fn output_lengths() {
    let lens: Vec<usize> = all_algs().iter().map(|a| a.output_len()).collect();
    assert_eq!(lens, vec![16, 20, 28, 32, 48, 64, 28, 32, 28, 32, 48, 64]);
}
