use vstd::prelude::*;
use vstd::utf8::encode_utf8;

use crate::alg::{alg_from_name, alg_from_name_spec, default_for_size, guess_alg, Alg};
use crate::hex::{decode_digest, decode_hex, same_digest};
use crate::text::{
    char_index_at, char_index_at_byte, char_width, chars_of, lemma_spans_from_bounds,
    skip_white_space, skip_white_space_from, string_of_range, utf8_len, utf8_len_of_range,
    word_spans, word_spans_of,
};

verus! {

/// What the checksum-file reader does with one line, as plain values.
pub enum LineOutcomeSpec {
    /// The line is improperly formatted and is counted as such.
    Malformed,
    /// The first of three words names no algorithm; the line is reported
    /// and skipped without being counted.
    UnknownAlgorithm(Seq<char>),
    /// The algorithm of the first line could not be guessed: the check stops.
    GuessFailed,
    /// The named file is to be hashed with the algorithms and compared with
    /// the expected digest; `binary` tells whether the mode mark was `*`.
    Verify(Seq<Alg>, Seq<u8>, bool, Seq<char>),
}

/// The whole treatment of one checksum line.
pub struct LineVerdict {
    /// The reader would panic on this line (a slice off a character boundary).
    pub panics: bool,
    /// The algorithm named by the first of three words, where it names one.
    pub parsed_alg: Option<Alg>,
    /// The algorithm guessed from the digest length on the first line.
    pub guessed_alg: Option<Alg>,
    /// The session's algorithms afterwards.
    pub algs_after: Seq<Alg>,
    pub outcome: LineOutcomeSpec,
}

/// Where the mode mark stands when the digest ends before character `j`.
/// In the GNU form `DIGEST MODE NAME` one space follows the digest, then the
/// mark, `*` or a space. In any other line the mark is the first character
/// after the white space that follows the digest.
pub open spec fn mode_mark_at(l: Seq<char>, j: int) -> int {
    if j + 1 < l.len() && l[j] == ' ' && (l[j + 1] == ' ' || l[j + 1] == '*') {
        j + 1
    } else {
        skip_white_space(l, j)
    }
}

/// The characters of a word span.
pub open spec fn span_text(l: Seq<char>, span: (int, int)) -> Seq<char> {
    l.subrange(span.0, span.1)
}

/// How the reader treats line number `index` (counting from 0) with the
/// text `l`, when the session's algorithms are `algs`.
///
/// A line of two words is `DIGEST REST`, one of three words `ALG DIGEST
/// REST`; any other count is malformed. The digest ends after as many bytes
/// as the words up to it take plus one separator byte per leading word,
/// counted from the start of the line. The mode mark (`*` for binary,
/// anything else for text) stands where `mode_mark_at` says, and the file
/// name is all the rest of the line.
pub open spec fn check_line_verdict(algs: Seq<Alg>, index: int, l: Seq<char>) -> LineVerdict {
    let spans = word_spans(l);
    let n = spans.len();
    if n != 2 && n != 3 {
        LineVerdict {
            panics: false,
            parsed_alg: None,
            guessed_alg: None,
            algs_after: algs,
            outcome: LineOutcomeSpec::Malformed,
        }
    } else {
        let parsed = if n == 3 {
            alg_from_name_spec(span_text(l, spans[0]))
        } else {
            None
        };
        if n == 3 && parsed is None {
            LineVerdict {
                panics: false,
                parsed_alg: None,
                guessed_alg: None,
                algs_after: algs,
                outcome: LineOutcomeSpec::UnknownAlgorithm(span_text(l, spans[0])),
            }
        } else {
            let dw = if n == 3 {
                span_text(l, spans[1])
            } else {
                span_text(l, spans[0])
            };
            let due = index == 0 && algs.len() == 0;
            let guessed = if due {
                default_for_size((((utf8_len(dw) as usize) / 2) as int))
            } else {
                None
            };
            if due && guessed is None {
                LineVerdict {
                    panics: false,
                    parsed_alg: parsed,
                    guessed_alg: None,
                    algs_after: algs,
                    outcome: LineOutcomeSpec::GuessFailed,
                }
            } else {
                let algs2 = if due {
                    seq![guessed.unwrap()]
                } else {
                    algs
                };
                let k: int = if n == 3 {
                    (utf8_len(span_text(l, spans[0])) + 1 + utf8_len(dw)) as int
                } else {
                    utf8_len(dw) as int
                };
                let dec = decode_hex(encode_utf8(dw));
                match char_index_at_byte(l, k) {
                    None => LineVerdict {
                        panics: true,
                        parsed_alg: parsed,
                        guessed_alg: guessed,
                        algs_after: algs2,
                        outcome: LineOutcomeSpec::Malformed,
                    },
                    Some(j) => {
                        let r = mode_mark_at(l, j);
                        if dec.1 is Some {
                            LineVerdict {
                                panics: false,
                                parsed_alg: parsed,
                                guessed_alg: guessed,
                                algs_after: algs2,
                                outcome: LineOutcomeSpec::Malformed,
                            }
                        } else if r >= l.len() || (l[r] as u32) >= 0x80 {
                            LineVerdict {
                                panics: true,
                                parsed_alg: parsed,
                                guessed_alg: guessed,
                                algs_after: algs2,
                                outcome: LineOutcomeSpec::Malformed,
                            }
                        } else {
                            LineVerdict {
                                panics: false,
                                parsed_alg: parsed,
                                guessed_alg: guessed,
                                algs_after: algs2,
                                outcome: LineOutcomeSpec::Verify(
                                    match parsed {
                                        Some(a) => seq![a],
                                        None => algs2,
                                    },
                                    dec.0,
                                    l[r] == '*',
                                    l.skip(r + 1),
                                ),
                            }
                        }
                    },
                }
            }
        }
    }
}

/// What the reader does with one line.
pub enum LineOutcome {
    /// The line is improperly formatted; it has been counted.
    Malformed,
    /// The first of three words (given here) names no algorithm.
    UnknownAlgorithm(String),
    /// The algorithm of the first line could not be guessed.
    GuessFailed,
    /// Hash `file_name` with `algs` and compare with `expected`.
    Verify { algs: Vec<Alg>, expected: Vec<u8>, binary: bool, file_name: String },
}

impl View for LineOutcome {
    type V = LineOutcomeSpec;

    open spec fn view(&self) -> LineOutcomeSpec {
        match self {
            LineOutcome::Malformed => LineOutcomeSpec::Malformed,
            LineOutcome::UnknownAlgorithm(w) => LineOutcomeSpec::UnknownAlgorithm(w@),
            LineOutcome::GuessFailed => LineOutcomeSpec::GuessFailed,
            LineOutcome::Verify { algs, expected, binary, file_name } => LineOutcomeSpec::Verify(
                algs@,
                expected@,
                *binary,
                file_name@,
            ),
        }
    }
}

/// One line's treatment: the algorithm parsed from it and the one guessed
/// (both reported in verbose mode, in that order) and the outcome.
pub struct LineStep {
    pub parsed_alg: Option<Alg>,
    pub guessed_alg: Option<Alg>,
    pub outcome: LineOutcome,
}

/// The result of examining a line without committing it to a session.
enum Examined {
    Panics(Option<Alg>, Option<Alg>),
    Done(LineStep, Vec<Alg>),
}

/// Examines line `index` of text `l` for a session whose algorithms are
/// `algs`.
fn examine(algs: &Vec<Alg>, index: usize, l: &[char]) -> (r: Examined)
    ensures
        ({
            let v = check_line_verdict(algs@, index as int, l@);
            match r {
                Examined::Panics(parsed, guessed) => {
                    &&& v.panics
                    &&& parsed == v.parsed_alg
                    &&& guessed == v.guessed_alg
                },
                Examined::Done(step, algs_after) => {
                    &&& !v.panics
                    &&& step.parsed_alg == v.parsed_alg
                    &&& step.guessed_alg == v.guessed_alg
                    &&& step.outcome@ == v.outcome
                    &&& algs_after@ == v.algs_after
                },
            }
        }),
{
    let ghost v = check_line_verdict(algs@, index as int, l@);
    let spans = word_spans_of(l);
    let ghost sp = word_spans(l@);
    assert(sp.len() == spans@.len());
    let n = spans.len();
    if n != 2 && n != 3 {
        return Examined::Done(
            LineStep { parsed_alg: None, guessed_alg: None, outcome: LineOutcome::Malformed },
            algs.clone(),
        );
    }
    proof {
        lemma_spans_from_bounds(l@, 0);
    }
    let mut parsed: Option<Alg> = None;
    let mut first_len: u128 = 0;
    if n == 3 {
        let (a0, b0) = spans[0];
        assert(sp[0] == (a0 as int, b0 as int));
        let w0 = string_of_range(l, a0, b0);
        first_len = utf8_len_of_range(l, a0, b0);
        match alg_from_name(w0.as_str()) {
            Some(a) => {
                parsed = Some(a);
            },
            None => {
                return Examined::Done(
                    LineStep {
                        parsed_alg: None,
                        guessed_alg: None,
                        outcome: LineOutcome::UnknownAlgorithm(w0),
                    },
                    algs.clone(),
                );
            },
        }
    }
    let (da, db) = if n == 3 {
        spans[1]
    } else {
        spans[0]
    };
    let ghost dsp = if n == 3 {
        sp[1]
    } else {
        sp[0]
    };
    assert(dsp == (da as int, db as int));
    let dw = string_of_range(l, da, db);
    let digest_len = utf8_len_of_range(l, da, db);
    let due = index == 0 && algs.len() == 0;
    let mut guessed: Option<Alg> = None;
    let mut algs2 = algs.clone();
    if due {
        match guess_alg(dw.as_str()) {
            Some(a) => {
                guessed = Some(a);
                algs2 = vec![a];
            },
            None => {
                return Examined::Done(
                    LineStep { parsed_alg: parsed, guessed_alg: None, outcome: LineOutcome::GuessFailed },
                    algs.clone(),
                );
            },
        }
    }
    assert(algs2@ == v.algs_after);
    let k: u128 = if n == 3 {
        first_len + 1 + digest_len
    } else {
        digest_len
    };
    let j = match char_index_at(l, k) {
        Some(j) => j,
        None => {
            return Examined::Panics(parsed, guessed);
        },
    };
    let mut expected: Vec<u8> = Vec::new();
    match decode_digest(dw.as_str(), &mut expected) {
        Ok(()) => {},
        Err(_) => {
            return Examined::Done(
                LineStep { parsed_alg: parsed, guessed_alg: guessed, outcome: LineOutcome::Malformed },
                algs2,
            );
        },
    }
    assert(expected@ =~= decode_hex(encode_utf8(dw@)).0);
    let r = if j < l.len() && l.len() - j >= 2 && l[j] == ' ' && (l[j + 1] == ' ' || l[j + 1]
        == '*') {
        j + 1
    } else {
        skip_white_space_from(l, j)
    };
    if r >= l.len() {
        return Examined::Panics(parsed, guessed);
    }
    if char_width(l[r]) != 1 {
        return Examined::Panics(parsed, guessed);
    }
    let binary = l[r] == '*';
    let file_name = string_of_range(l, r + 1, l.len());
    assert(file_name@ =~= l@.skip(r + 1));
    let use_algs = match parsed {
        Some(a) => {
            let one = vec![a];
            assert(one@ =~= seq![a]);
            one
        },
        None => algs2.clone(),
    };
    Examined::Done(
        LineStep {
            parsed_alg: parsed,
            guessed_alg: guessed,
            outcome: LineOutcome::Verify { algs: use_algs, expected, binary, file_name },
        },
        algs2,
    )
}


/// The state of a check over one checksum file: the algorithms for lines
/// that name none, and the counts of the summary.
pub struct CheckSession {
    /// Algorithms for lines without an algorithm word: the single requested
    /// one, or the one guessed from the first line.
    pub algs: Vec<Alg>,
    /// Improperly formatted lines.
    pub malformed: u64,
    /// Listed files that could not be opened.
    pub missing: u64,
    /// Files whose digest did not match.
    pub mismatched: u64,
    /// Properly formatted lines.
    pub well_formed: u64,
}

/// The warnings and the exit status at the end of a check.
pub struct CheckSummary {
    /// Number of improperly formatted lines, where a warning is due.
    pub malformed_warning: Option<u64>,
    /// Number of listed files that could not be read, where a warning is due.
    pub unreadable_warning: Option<u64>,
    /// Number of mismatched digests, where a warning is due.
    pub mismatch_warning: Option<u64>,
    /// No properly formatted line was found.
    pub nothing_well_formed: bool,
    /// The exit status.
    pub exit_code: i32,
}

impl CheckSession {
    /// A session for a check with the requested algorithms: a single one is
    /// used for lines without an algorithm word; otherwise the first line's
    /// algorithm is guessed.
    pub fn new(requested: &[Alg]) -> (s: Self)
        ensures
            s.algs@ == (if requested@.len() == 1 {
                seq![requested@[0]]
            } else {
                Seq::<Alg>::empty()
            }),
            s.malformed == 0,
            s.missing == 0,
            s.mismatched == 0,
            s.well_formed == 0,
    {
        let mut algs: Vec<Alg> = Vec::new();
        if requested.len() == 1 {
            algs.push(requested[0]);
        }
        proof {
            if requested@.len() == 1 {
                assert(algs@ =~= seq![requested@[0]]);
            } else {
                assert(algs@ =~= Seq::<Alg>::empty());
            }
        }
        CheckSession { algs, malformed: 0, missing: 0, mismatched: 0, well_formed: 0 }
    }

    /// Whether the reader would panic on line `index` with text `line`
    /// (slicing it off a character boundary); if so, the algorithms parsed
    /// from it and guessed for it before that point, which verbose output
    /// reports first.
    pub fn line_panics(&self, index: usize, line: &str) -> (r: Option<(Option<Alg>, Option<Alg>)>)
        ensures
            ({
                let v = check_line_verdict(self.algs@, index as int, line@);
                &&& r is Some <==> v.panics
                &&& r matches Some(p) ==> p == (v.parsed_alg, v.guessed_alg)
            }),
    {
        let chars = chars_of(line);
        match examine(&self.algs, index, chars.as_slice()) {
            Examined::Panics(parsed, guessed) => Some((parsed, guessed)),
            Examined::Done(_, _) => None,
        }
    }

    /// Reads line `index` (counting every line of the file from 0) with text
    /// `line`: counts it as malformed or well formed, takes up the guessed
    /// algorithm, and says what is to be done with it.
    pub fn read_line(&mut self, index: usize, line: &str) -> (step: LineStep)
        requires
            !check_line_verdict(old(self).algs@, index as int, line@).panics,
            old(self).malformed < u64::MAX,
            old(self).well_formed < u64::MAX,
        ensures
            ({
                let v = check_line_verdict(old(self).algs@, index as int, line@);
                &&& step.parsed_alg == v.parsed_alg
                &&& step.guessed_alg == v.guessed_alg
                &&& step.outcome@ == v.outcome
                &&& final(self).algs@ == v.algs_after
                &&& final(self).malformed == old(self).malformed + if v.outcome is Malformed {
                    1int
                } else {
                    0int
                }
                &&& final(self).well_formed == old(self).well_formed + if v.outcome is Verify {
                    1int
                } else {
                    0int
                }
            }),
            final(self).missing == old(self).missing,
            final(self).mismatched == old(self).mismatched,
    {
        let chars = chars_of(line);
        match examine(&self.algs, index, chars.as_slice()) {
            Examined::Panics(_, _) => {
                assert(false);
                LineStep { parsed_alg: None, guessed_alg: None, outcome: LineOutcome::Malformed }
            },
            Examined::Done(step, algs_after) => {
                self.algs = algs_after;
                match &step.outcome {
                    LineOutcome::Malformed => {
                        self.malformed = self.malformed + 1;
                    },
                    LineOutcome::Verify { .. } => {
                        self.well_formed = self.well_formed + 1;
                    },
                    _ => {},
                }
                step
            },
        }
    }

    /// Counts a listed file that could not be opened.
    pub fn record_missing(&mut self)
        requires
            old(self).missing < u64::MAX,
        ensures
            final(self).missing == old(self).missing + 1,
            final(self).algs == old(self).algs,
            final(self).malformed == old(self).malformed,
            final(self).mismatched == old(self).mismatched,
            final(self).well_formed == old(self).well_formed,
    {
        self.missing = self.missing + 1;
    }

    /// Compares a computed digest with the expected one and counts a
    /// mismatch; true where they match.
    pub fn record_digest(&mut self, expected: &[u8], computed: &[u8]) -> (ok: bool)
        requires
            old(self).mismatched < u64::MAX,
        ensures
            ok == (expected@ == computed@),
            final(self).mismatched == old(self).mismatched + if ok {
                0int
            } else {
                1int
            },
            final(self).algs == old(self).algs,
            final(self).malformed == old(self).malformed,
            final(self).missing == old(self).missing,
            final(self).well_formed == old(self).well_formed,
    {
        let ok = same_digest(expected, computed);
        if !ok {
            self.mismatched = self.mismatched + 1;
        }
        ok
    }

    /// The warnings and exit status at the end of the check.
    pub fn summary(&self, ignore_missing: bool, strict: bool) -> (s: CheckSummary)
        ensures
            s.malformed_warning == (if self.malformed > 0 {
                Some(self.malformed)
            } else {
                None
            }),
            s.unreadable_warning == (if self.missing > 0 && (!ignore_missing || self.malformed > 0
                || self.mismatched > 0) {
                Some(self.missing)
            } else {
                None
            }),
            s.mismatch_warning == (if self.mismatched > 0 {
                Some(self.mismatched)
            } else {
                None
            }),
            s.nothing_well_formed == (self.well_formed == 0),
            s.exit_code == (if self.well_formed == 0 {
                1i32
            } else if self.mismatched > 0 || (self.missing > 0 && !ignore_missing) {
                1i32
            } else if strict && self.malformed > 0 {
                2i32
            } else {
                0i32
            }),
    {
        let malformed_warning = if self.malformed > 0 {
            Some(self.malformed)
        } else {
            None
        };
        let unreadable_warning = if self.missing > 0 && (!ignore_missing || self.malformed > 0
            || self.mismatched > 0) {
            Some(self.missing)
        } else {
            None
        };
        let mismatch_warning = if self.mismatched > 0 {
            Some(self.mismatched)
        } else {
            None
        };
        let exit_code = if self.well_formed == 0 {
            1
        } else if self.mismatched > 0 || (self.missing > 0 && !ignore_missing) {
            1
        } else if strict && self.malformed > 0 {
            2
        } else {
            0
        };
        CheckSummary {
            malformed_warning,
            unreadable_warning,
            mismatch_warning,
            nothing_well_formed: self.well_formed == 0,
            exit_code,
        }
    }
}

} // verus!
