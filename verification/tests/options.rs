use digest_tool::alg::Alg;
use digest_tool::cli::{
    checkonly, fast_check_alg, hash_mode_algs, is_stdin_name, reads_binary, takes_expected_digest,
    validate_options, AlgChoice, CheckOnlyOption, OptionError, Options,
};

fn opts() -> Options {
    Options {
        check: false,
        ignore_missing: false,
        quiet: false,
        status: false,
        strict: false,
        warn: false,
        relative: false,
        binary: false,
        text: false,
    }
}

#[test]
fn plain_options_are_accepted() {
    assert!(validate_options(&opts()).is_ok());
}

#[test]
fn check_only_options_need_check_mode() {
    let mut o = opts();
    o.quiet = true;
    o.warn = true;
    assert_eq!(validate_options(&o), Err(OptionError::CheckOnly(CheckOnlyOption::Quiet)));
    o.check = true;
    assert!(validate_options(&o).is_ok());
}

#[test]
fn first_check_only_option_is_reported() {
    let mut o = opts();
    o.relative = true;
    o.ignore_missing = true;
    assert_eq!(validate_options(&o), Err(OptionError::CheckOnly(CheckOnlyOption::IgnoreMissing)));
}

#[test]
fn binary_and_text_exclude_each_other() {
    let mut o = opts();
    o.binary = true;
    o.text = true;
    assert_eq!(validate_options(&o), Err(OptionError::BinaryAndText));
    o.status = true;
    assert_eq!(validate_options(&o), Err(OptionError::CheckOnly(CheckOnlyOption::Status)));
}

#[test]
fn option_flags() {
    assert_eq!(CheckOnlyOption::IgnoreMissing.flag(), "--ignore-missing");
    assert_eq!(CheckOnlyOption::Relative.flag(), "--relative");
    assert_eq!(CheckOnlyOption::Strict.flag(), "--strict");
}

#[test]
fn checkonly_refuses_only_outside_check_mode() {
    assert_eq!(checkonly(false, true, CheckOnlyOption::Warn), Some(OptionError::CheckOnly(CheckOnlyOption::Warn)));
    assert_eq!(checkonly(true, true, CheckOnlyOption::Warn), None);
    assert_eq!(checkonly(false, false, CheckOnlyOption::Warn), None);
}

#[test]
fn expected_digest_argument() {
    assert!(!takes_expected_digest(1, true, false));
    assert!(takes_expected_digest(2, true, true));
    assert!(takes_expected_digest(2, false, false));
    assert!(!takes_expected_digest(2, false, true));
}

#[test]
fn stdin_name_and_binary_mode() {
    assert!(is_stdin_name("-"));
    assert!(!is_stdin_name("--"));
    assert!(!is_stdin_name(""));
    assert!(reads_binary(true, false, true, false));
    assert!(reads_binary(true, true, true, false));
    assert!(!reads_binary(true, false, false, true));
    assert!(reads_binary(true, false, false, false));
    assert!(!reads_binary(true, true, false, false));
    assert!(reads_binary(false, true, false, false));
    assert!(!reads_binary(false, false, false, true));
}

#[test]
fn hash_mode_defaults() {
    assert_eq!(hash_mode_algs(&[]), vec![Alg::Md5, Alg::Sha1, Alg::Sha256, Alg::Sha512]);
    assert_eq!(hash_mode_algs(&[Alg::Sha3_224]), vec![Alg::Sha3_224]);
}

#[test]
fn fast_check_algorithm_choice() {
    let md5_text = "0".repeat(32);
    assert_eq!(fast_check_alg(&[Alg::Sha1], &md5_text), AlgChoice::Given(Alg::Sha1));
    assert_eq!(fast_check_alg(&[], &md5_text), AlgChoice::Guessed(Alg::Md5));
    assert_eq!(fast_check_alg(&[Alg::Sha1, Alg::Sha256], &md5_text), AlgChoice::Guessed(Alg::Md5));
    assert_eq!(fast_check_alg(&[], "abc"), AlgChoice::Unguessable);
}
