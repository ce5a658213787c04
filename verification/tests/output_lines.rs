use digest_tool::alg::Alg;
use digest_tool::check::{CheckSession, LineOutcome};
use digest_tool::hashing::hash;
use digest_tool::hex::encode_hex;
use digest_tool::output::{digest_line_prefix, digest_line_suffix, file_result_message, FileResult};

fn printed(alg: Alg, tag: bool, several: bool, verbose: bool, digest_only: bool, binary: bool, name: &str, digest: &[u8]) -> String {
    let mut s = digest_line_prefix(alg, tag, several, verbose, name);
    s.push_str(&String::from_utf8(encode_hex(digest)).unwrap());
    s.push_str(&digest_line_suffix(tag, digest_only, several, binary, name));
    s
}

#[test]
fn plain_binary_line() {
    assert_eq!(printed(Alg::Md5, false, false, false, false, true, "f.txt", &[0xab, 0x01]), "ab01 *f.txt\n");
}

#[test]
fn plain_text_line() {
    assert_eq!(printed(Alg::Md5, false, false, false, false, false, "f.txt", &[0xab]), "ab  f.txt\n");
}

#[test]
fn named_line_with_several_or_verbose() {
    assert_eq!(printed(Alg::Sha512_224, false, true, false, false, true, "x", &[0x10]), "sha512-224 10 *x\n");
    assert_eq!(printed(Alg::Sha1, false, false, true, false, false, "x", &[0x10]), "sha1 10  x\n");
}

#[test]
fn digest_only_drops_the_name_for_a_single_algorithm() {
    assert_eq!(printed(Alg::Md5, false, false, false, true, true, "x", &[0xff]), "ff\n");
    assert_eq!(printed(Alg::Md5, false, false, true, true, false, "x", &[0xff]), "md5 ff\n");
}

#[test]
fn digest_only_keeps_the_name_for_several_algorithms() {
    assert_eq!(printed(Alg::Md5, false, true, false, true, true, "x", &[0xff]), "md5 ff *x\n");
}

#[test]
fn tag_line() {
    assert_eq!(printed(Alg::Sha256, true, false, false, false, true, "a b", &[0x01]), "sha256 (a b) = 01\n");
    assert_eq!(printed(Alg::Sha256, true, true, true, true, false, "a", &[0x01]), "sha256 (a) = 01\n");
}

#[test]
fn printed_named_line_reads_back() {
    let d = hash(&[Alg::Sha3_256], b"content").remove(0);
    let line = printed(Alg::Sha3_256, false, true, false, false, true, "dir/f.bin", &d);
    let mut s = CheckSession::new(&[]);
    let step = s.read_line(0, line.trim_end_matches('\n'));
    assert_eq!(step.parsed_alg, Some(Alg::Sha3_256));
    match step.outcome {
        LineOutcome::Verify { algs, expected, binary, file_name } => {
            assert_eq!(algs, vec![Alg::Sha3_256]);
            assert_eq!(expected, d);
            assert!(binary);
            assert_eq!(file_name, "dir/f.bin");
        }
        _ => panic!("expected a file to verify"),
    }
}

#[test]
fn printed_bare_line_reads_back() {
    let d = hash(&[Alg::Sha384], b"content").remove(0);
    let line = printed(Alg::Sha384, false, false, false, false, true, "ä.txt", &d);
    let mut s = CheckSession::new(&[]);
    let step = s.read_line(0, line.trim_end_matches('\n'));
    assert_eq!(step.guessed_alg, Some(Alg::Sha384));
    match step.outcome {
        LineOutcome::Verify { algs, expected, binary, file_name } => {
            assert_eq!(algs, vec![Alg::Sha384]);
            assert_eq!(expected, d);
            assert!(binary);
            assert_eq!(file_name, "ä.txt");
        }
        _ => panic!("expected a file to verify"),
    }
}

#[test]
fn printed_text_mode_lines_read_back() {
    let d = hash(&[Alg::Md5], b"content").remove(0);
    let mut s = CheckSession::new(&[Alg::Md5]);
    let line = printed(Alg::Md5, false, false, false, false, false, "name", &d);
    match s.read_line(3, line.trim_end_matches('\n')).outcome {
        LineOutcome::Verify { expected, binary, file_name, .. } => {
            assert_eq!(expected, d);
            assert!(!binary);
            assert_eq!(file_name, "name");
        }
        _ => panic!("expected a file to verify"),
    }
    let line = printed(Alg::Md5, false, true, false, false, false, "name", &d);
    match s.read_line(4, line.trim_end_matches('\n')).outcome {
        LineOutcome::Verify { algs, binary, file_name, .. } => {
            assert_eq!(algs, vec![Alg::Md5]);
            assert!(!binary);
            assert_eq!(file_name, "name");
        }
        _ => panic!("expected a file to verify"),
    }
}

#[test]
fn tag_line_is_not_read_back() {
    let line = printed(Alg::Md5, true, false, false, false, true, "f", &[0u8; 16]);
    let mut s = CheckSession::new(&[]);
    assert!(matches!(s.read_line(0, line.trim_end_matches('\n')).outcome, LineOutcome::Malformed));
}

#[test]
fn file_results_are_reported_by_the_flags() {
    assert_eq!(file_result_message("a.txt", FileResult::Matched, false, false), Some("a.txt: OK".to_string()));
    assert_eq!(file_result_message("a.txt", FileResult::Matched, true, false), None);
    assert_eq!(file_result_message("a.txt", FileResult::Matched, false, true), Some("a.txt: OK".to_string()));
    assert_eq!(file_result_message("b", FileResult::Mismatched, true, false), Some("b: FAILED".to_string()));
    assert_eq!(file_result_message("b", FileResult::Mismatched, false, true), None);
    assert_eq!(
        file_result_message("c d", FileResult::Unreadable, true, false),
        Some("c d: FAILED open or read".to_string())
    );
    assert_eq!(file_result_message("c d", FileResult::Unreadable, false, true), None);
}
