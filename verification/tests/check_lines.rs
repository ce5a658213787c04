use digest_tool::alg::Alg;
use digest_tool::check::{CheckSession, LineOutcome};

const MD5_ABC: &str = "900150983cd24fb0d6963f7d28e17f72";

fn md5_abc_bytes() -> Vec<u8> {
    vec![
        0x90, 0x01, 0x50, 0x98, 0x3c, 0xd2, 0x4f, 0xb0, 0xd6, 0x96, 0x3f, 0x7d, 0x28, 0xe1, 0x7f,
        0x72,
    ]
}

#[test]
fn single_algorithm_is_used_for_bare_lines() {
    let s = CheckSession::new(&[Alg::Sha1]);
    assert_eq!(s.algs, vec![Alg::Sha1]);
    let s = CheckSession::new(&[Alg::Sha1, Alg::Md5]);
    assert!(s.algs.is_empty());
    let s = CheckSession::new(&[]);
    assert!(s.algs.is_empty());
}

#[test]
fn binary_line_with_guess_on_first_line() {
    let mut s = CheckSession::new(&[]);
    let line = format!("{} *file.txt", MD5_ABC);
    assert!(s.line_panics(0, &line).is_none());
    let step = s.read_line(0, &line);
    assert_eq!(step.parsed_alg, None);
    assert_eq!(step.guessed_alg, Some(Alg::Md5));
    match step.outcome {
        LineOutcome::Verify { algs, expected, binary, file_name } => {
            assert_eq!(algs, vec![Alg::Md5]);
            assert_eq!(expected, md5_abc_bytes());
            assert!(binary);
            assert_eq!(file_name, "file.txt");
        }
        _ => panic!("expected a file to verify"),
    }
    assert_eq!(s.algs, vec![Alg::Md5]);
    assert_eq!(s.well_formed, 1);
    assert_eq!(s.malformed, 0);
}

#[test]
fn guess_only_on_the_first_line() {
    let mut s = CheckSession::new(&[]);
    let line = format!("{} *f", MD5_ABC);
    let step = s.read_line(1, &line);
    assert_eq!(step.guessed_alg, None);
    match step.outcome {
        LineOutcome::Verify { algs, .. } => assert!(algs.is_empty()),
        _ => panic!("expected a file to verify"),
    }
}

#[test]
fn three_word_line_names_its_algorithm() {
    let mut s = CheckSession::new(&[Alg::Sha1]);
    let line = format!("md5 {} *a b", MD5_ABC);
    let step = s.read_line(3, &line);
    assert_eq!(step.parsed_alg, None);
    assert!(matches!(step.outcome, LineOutcome::Malformed));
    let line = format!("MD5 {} *ab", MD5_ABC);
    let step = s.read_line(4, &line);
    assert_eq!(step.parsed_alg, Some(Alg::Md5));
    match step.outcome {
        LineOutcome::Verify { algs, file_name, binary, .. } => {
            assert_eq!(algs, vec![Alg::Md5]);
            assert_eq!(file_name, "ab");
            assert!(binary);
        }
        _ => panic!("expected a file to verify"),
    }
    assert_eq!(s.algs, vec![Alg::Sha1]);
}

#[test]
fn text_mode_line_reads_its_name() {
    let mut s = CheckSession::new(&[Alg::Md5]);
    let line = format!("{}  name", MD5_ABC);
    let step = s.read_line(0, &line);
    match step.outcome {
        LineOutcome::Verify { binary, file_name, .. } => {
            assert!(!binary);
            assert_eq!(file_name, "name");
        }
        _ => panic!("expected a file to verify"),
    }
}

#[test]
fn gnu_form_then_other_separators() {
    let mut s = CheckSession::new(&[Alg::Md5]);
    let line = format!("{}   *f", MD5_ABC);
    match s.read_line(0, &line).outcome {
        LineOutcome::Verify { binary, file_name, .. } => {
            assert!(!binary);
            assert_eq!(file_name, " *f");
        }
        _ => panic!("expected a file to verify"),
    }
    let line = format!("{}\t*fg", MD5_ABC);
    match s.read_line(2, &line).outcome {
        LineOutcome::Verify { binary, file_name, .. } => {
            assert!(binary);
            assert_eq!(file_name, "fg");
        }
        _ => panic!("expected a file to verify"),
    }
}

#[test]
fn leading_white_space_shifts_the_mode_mark() {
    let mut s = CheckSession::new(&[Alg::Md5]);
    let line = format!(" {} *f", MD5_ABC);
    assert!(s.line_panics(0, &line).is_none());
    match s.read_line(0, &line).outcome {
        LineOutcome::Verify { binary, file_name, expected, .. } => {
            assert_eq!(expected, md5_abc_bytes());
            assert!(!binary);
            assert_eq!(file_name, " *f");
        }
        _ => panic!("expected a file to verify"),
    }
}

#[test]
fn other_gaps_are_skipped_before_the_mode_mark() {
    let mut s = CheckSession::new(&[Alg::Md5]);
    let line = format!("{} \t *f", MD5_ABC);
    match s.read_line(0, &line).outcome {
        LineOutcome::Verify { binary, file_name, .. } => {
            assert!(binary);
            assert_eq!(file_name, "f");
        }
        _ => panic!("expected a file to verify"),
    }
    let line = format!("{} name", MD5_ABC);
    match s.read_line(1, &line).outcome {
        LineOutcome::Verify { binary, file_name, .. } => {
            assert!(!binary);
            assert_eq!(file_name, "ame");
        }
        _ => panic!("expected a file to verify"),
    }
}

#[test]
fn unknown_algorithm_word_is_not_counted() {
    let mut s = CheckSession::new(&[Alg::Md5]);
    let step = s.read_line(0, &format!("whirlpool {} *f", MD5_ABC));
    match step.outcome {
        LineOutcome::UnknownAlgorithm(w) => assert_eq!(w, "whirlpool"),
        _ => panic!("expected an unknown algorithm"),
    }
    assert_eq!(s.malformed, 0);
    assert_eq!(s.well_formed, 0);
}

#[test]
fn wrong_word_counts_are_malformed() {
    let mut s = CheckSession::new(&[Alg::Md5]);
    assert!(matches!(s.read_line(0, "").outcome, LineOutcome::Malformed));
    assert!(matches!(s.read_line(1, "   \t ").outcome, LineOutcome::Malformed));
    assert!(matches!(s.read_line(2, "onlyone").outcome, LineOutcome::Malformed));
    assert!(matches!(s.read_line(3, "a b c d").outcome, LineOutcome::Malformed));
    assert_eq!(s.malformed, 4);
}

#[test]
fn bad_hex_is_malformed_after_the_guess() {
    let mut s = CheckSession::new(&[]);
    let bad = "z".repeat(32);
    let step = s.read_line(0, &format!("{} *f", bad));
    assert_eq!(step.guessed_alg, Some(Alg::Md5));
    assert!(matches!(step.outcome, LineOutcome::Malformed));
    assert_eq!(s.algs, vec![Alg::Md5]);
    assert_eq!(s.malformed, 1);
}

#[test]
fn unguessable_first_line_stops_the_check() {
    let mut s = CheckSession::new(&[]);
    let step = s.read_line(0, "abcd *f");
    assert!(matches!(step.outcome, LineOutcome::GuessFailed));
    assert!(s.algs.is_empty());
}

#[test]
fn leading_multibyte_space_makes_the_reader_panic() {
    let s = CheckSession::new(&[Alg::Md5]);
    assert_eq!(s.line_panics(0, "\u{3000}ab c"), Some((None, None)));
    let line = format!("\u{3000}{} *f", MD5_ABC);
    assert!(s.line_panics(0, &line).is_none());
}

#[test]
fn panicking_line_reports_what_was_parsed_first() {
    let s = CheckSession::new(&[Alg::Md5]);
    let line = "\u{3000}\u{3000}\u{3000}md5 abc d";
    assert_eq!(s.line_panics(5, line), Some((Some(Alg::Md5), None)));
}

#[test]
fn non_ascii_mode_mark_makes_the_reader_panic() {
    let s = CheckSession::new(&[Alg::Md5]);
    let line = format!("{} éfile", MD5_ABC);
    assert!(s.line_panics(0, &line).is_some());
    let line = format!("{} *éfile", MD5_ABC);
    assert!(s.line_panics(0, &line).is_none());
}

#[test]
fn missing_and_mismatched_files_are_counted() {
    let mut s = CheckSession::new(&[Alg::Md5]);
    s.record_missing();
    assert_eq!(s.missing, 1);
    assert!(s.record_digest(&[1, 2], &[1, 2]));
    assert_eq!(s.mismatched, 0);
    assert!(!s.record_digest(&[1, 2], &[1, 3]));
    assert_eq!(s.mismatched, 1);
}

#[test]
fn summary_of_a_clean_check() {
    let mut s = CheckSession::new(&[Alg::Md5]);
    s.read_line(0, &format!("{} *f", MD5_ABC));
    let sum = s.summary(false, false);
    assert_eq!(sum.exit_code, 0);
    assert_eq!(sum.malformed_warning, None);
    assert_eq!(sum.unreadable_warning, None);
    assert_eq!(sum.mismatch_warning, None);
    assert!(!sum.nothing_well_formed);
}

#[test]
fn summary_exit_codes() {
    let mut s = CheckSession::new(&[Alg::Md5]);
    assert_eq!(s.summary(false, false).exit_code, 1);
    assert!(s.summary(false, false).nothing_well_formed);
    s.read_line(0, &format!("{} *f", MD5_ABC));
    s.read_line(1, "garbage");
    assert_eq!(s.summary(false, false).exit_code, 0);
    assert_eq!(s.summary(false, true).exit_code, 2);
    assert_eq!(s.summary(false, true).malformed_warning, Some(1));
    s.record_missing();
    assert_eq!(s.summary(false, false).exit_code, 1);
    assert_eq!(s.summary(false, false).unreadable_warning, Some(1));
    assert_eq!(s.summary(true, false).exit_code, 0);
    assert_eq!(s.summary(true, false).unreadable_warning, Some(1));
    s.record_digest(&[1], &[2]);
    assert_eq!(s.summary(true, false).exit_code, 1);
    assert_eq!(s.summary(true, false).mismatch_warning, Some(1));
}

#[test]
fn ignored_missing_files_warn_only_with_other_trouble() {
    let mut s = CheckSession::new(&[Alg::Md5]);
    s.read_line(0, &format!("{} *f", MD5_ABC));
    s.record_missing();
    assert_eq!(s.summary(true, false).unreadable_warning, None);
    assert_eq!(s.summary(true, false).exit_code, 0);
}
