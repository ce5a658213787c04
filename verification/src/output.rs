use vstd::prelude::*;
use vstd::utf8::encode_utf8;

use crate::alg::{default_for_size, lemma_value_name_plain, names_read_back, Alg};
use crate::check::{check_line_verdict, span_text, LineOutcomeSpec};
use crate::hex::{
    decode_encode_roundtrip, decode_hex, decode_hex_text, encode_hex_spec, hex_char, hex_digit,
    is_hex_text_of,
};
use crate::text::{
    is_white_space, lemma_ascii_utf8, lemma_char_index_at_ascii, lemma_skip_white_space_at,
    lemma_word_end_at, push_char, push_str, skip_white_space, spans_from, utf8_len,
    word_spans,
};

verus! {

/// The text printed before the hexadecimal digest of a file in hash mode:
/// `NAME (FILE) = ` for the BSD-style tag, `NAME ` when several algorithms
/// are listed or the output is verbose, nothing otherwise.
pub open spec fn line_prefix(a: Alg, tag: bool, several: bool, verbose: bool, file_name: Seq<char>) -> Seq<char> {
    if tag {
        a.value_name() + " ("@ + file_name + ") = "@
    } else if several || verbose {
        a.value_name() + " "@
    } else {
        seq![]
    }
}

/// The text printed after the hexadecimal digest: the line end for the
/// tag; ` *FILE` (binary) or `  FILE` (text) and the line end otherwise,
/// except that with `--digest-only` and a single algorithm the file name
/// is left out and only the line end follows.
pub open spec fn line_suffix(
    tag: bool,
    digest_only: bool,
    several: bool,
    binary: bool,
    file_name: Seq<char>,
) -> Seq<char> {
    if tag {
        seq!['\n']
    } else if digest_only && !several {
        seq!['\n']
    } else if binary {
        " *"@ + file_name + seq!['\n']
    } else {
        "  "@ + file_name + seq!['\n']
    }
}

/// How a file listed in a check, or named in a fast check, fared.
#[derive(Clone, Copy, Debug, PartialEq, Eq, Structural)]
pub enum FileResult {
    /// Its digest equals the expected one.
    Matched,
    /// Its digest differs from the expected one.
    Mismatched,
    /// It could not be opened.
    Unreadable,
}

/// The line, without its end, printed on standard output about such a file:
/// `FILE: OK` unless `--quiet` is given, `FILE: FAILED` or
/// `FILE: FAILED open or read` unless `--status` is given.
pub open spec fn file_result_line(
    file_name: Seq<char>,
    result: FileResult,
    quiet: bool,
    status: bool,
) -> Option<Seq<char>> {
    match result {
        FileResult::Matched => if quiet {
            None
        } else {
            Some(file_name + ": OK"@)
        },
        FileResult::Mismatched => if status {
            None
        } else {
            Some(file_name + ": FAILED"@)
        },
        FileResult::Unreadable => if status {
            None
        } else {
            Some(file_name + ": FAILED open or read"@)
        },
    }
}

/// The line to print on standard output about `file_name`, if any.
pub fn file_result_message(
    file_name: &str,
    result: FileResult,
    quiet: bool,
    status: bool,
) -> (r: Option<String>)
    ensures
        match r {
            Some(s) => file_result_line(file_name@, result, quiet, status) == Some(s@),
            None => file_result_line(file_name@, result, quiet, status) is None,
        },
{
    let (shown, tail) = match result {
        FileResult::Matched => (!quiet, ": OK"),
        FileResult::Mismatched => (!status, ": FAILED"),
        FileResult::Unreadable => (!status, ": FAILED open or read"),
    };
    if !shown {
        return None;
    }
    let mut s = String::new();
    push_str(&mut s, file_name);
    push_str(&mut s, tail);
    Some(s)
}

/// What is printed about a file says how it fared. A file whose digest
/// differs is reported as `FILE: FAILED`, and one that could not be opened
/// as `FILE: FAILED open or read`, whenever `--status` is not given,
/// whatever `--quiet` says; a matching file is reported as `FILE: OK`
/// whenever `--quiet` is not given, whatever `--status` says. A failed file
/// is never reported as matching.
pub proof fn file_result_lines_tell_the_result(
    file_name: Seq<char>,
    result: FileResult,
    quiet: bool,
    status: bool,
    quiet2: bool,
    status2: bool,
)
    ensures
        result != FileResult::Matched ==> file_result_line(file_name, result, quiet, status)
            == file_result_line(file_name, result, quiet2, status),
        result == FileResult::Matched ==> file_result_line(file_name, result, quiet, status)
            == file_result_line(file_name, result, quiet, status2),
        result != FileResult::Matched ==> (file_result_line(file_name, result, quiet, status) is Some
            <==> !status),
        result == FileResult::Matched ==> (file_result_line(file_name, result, quiet, status) is Some
            <==> !quiet),
        file_result_line(file_name, FileResult::Matched, quiet, status) matches Some(t) ==> t
            == file_name + ": OK"@,
        file_result_line(file_name, FileResult::Mismatched, quiet, status) matches Some(t) ==> t
            == file_name + ": FAILED"@,
        file_result_line(file_name, FileResult::Unreadable, quiet, status) matches Some(t) ==> t
            == file_name + ": FAILED open or read"@,
        result != FileResult::Matched ==> file_result_line(file_name, result, quiet, status)
            != Some(file_name + ": OK"@),
{
    reveal_strlit(": OK");
    reveal_strlit(": FAILED");
    reveal_strlit(": FAILED open or read");
    assert((file_name + ": OK"@).len() != (file_name + ": FAILED"@).len());
    assert((file_name + ": OK"@).len() != (file_name + ": FAILED open or read"@).len());
}

/// With `--tag` every line reads `NAME (FILE) = HEX`: the prefix is the
/// algorithm's name, ` (`, the file name and `) = `, and the line ends right
/// after the digest, however many algorithms are listed, with or without
/// verbose output, `--digest-only` or binary mode.
pub proof fn tag_lines_name_the_file(
    a: Alg,
    several: bool,
    verbose: bool,
    digest_only: bool,
    binary: bool,
    file_name: Seq<char>,
)
    ensures
        line_prefix(a, true, several, verbose, file_name) == a.value_name() + " ("@ + file_name
            + ") = "@,
        line_suffix(true, digest_only, several, binary, file_name) == seq!['\n'],
{
}

/// Without `--tag` the algorithm is named before the digest exactly when
/// several algorithms are listed or the output is verbose, and the file
/// name follows the digest, after ` *` in binary mode and two spaces in
/// text mode, unless `--digest-only` is given for a single algorithm.
pub proof fn untagged_lines(
    a: Alg,
    several: bool,
    verbose: bool,
    digest_only: bool,
    binary: bool,
    file_name: Seq<char>,
)
    ensures
        line_prefix(a, false, several, verbose, file_name) == if several || verbose {
            a.value_name() + " "@
        } else {
            Seq::<char>::empty()
        },
        line_suffix(false, digest_only, several, binary, file_name) == if digest_only && !several {
            seq!['\n']
        } else if binary {
            " *"@ + file_name + seq!['\n']
        } else {
            "  "@ + file_name + seq!['\n']
        },
{
}

/// The character of a hexadecimal digit value.
pub open spec fn hex_digit_char(v: u8) -> char {
    if v == 0 {
        '0'
    } else if v == 1 {
        '1'
    } else if v == 2 {
        '2'
    } else if v == 3 {
        '3'
    } else if v == 4 {
        '4'
    } else if v == 5 {
        '5'
    } else if v == 6 {
        '6'
    } else if v == 7 {
        '7'
    } else if v == 8 {
        '8'
    } else if v == 9 {
        '9'
    } else if v == 10 {
        'a'
    } else if v == 11 {
        'b'
    } else if v == 12 {
        'c'
    } else if v == 13 {
        'd'
    } else if v == 14 {
        'e'
    } else {
        'f'
    }
}

/// The hexadecimal digest as text, the characters of `encode_hex_spec`.
pub open spec fn hex_text(d: Seq<u8>) -> Seq<char> {
    Seq::new(
        2 * d.len(),
        |i: int|
            if i % 2 == 0 {
                hex_digit_char(d[i / 2] / 16)
            } else {
                hex_digit_char(d[i / 2] % 16)
            },
    )
}

/// The text printed before the hexadecimal digest of `file_name`.
pub fn digest_line_prefix(a: Alg, tag: bool, several: bool, verbose: bool, file_name: &str) -> (s: String)
    ensures
        s@ == line_prefix(a, tag, several, verbose, file_name@),
{
    let mut s = String::new();
    if tag {
        push_str(&mut s, a.cli_name());
        push_str(&mut s, " (");
        push_str(&mut s, file_name);
        push_str(&mut s, ") = ");
    } else if several || verbose {
        push_str(&mut s, a.cli_name());
        push_str(&mut s, " ");
    }
    s
}

/// The text printed after the hexadecimal digest of `file_name`.
pub fn digest_line_suffix(
    tag: bool,
    digest_only: bool,
    several: bool,
    binary: bool,
    file_name: &str,
) -> (s: String)
    ensures
        s@ == line_suffix(tag, digest_only, several, binary, file_name@),
{
    let mut s = String::new();
    if tag || (digest_only && !several) {
        push_char(&mut s, '\n');
    } else {
        if binary {
            push_str(&mut s, " *");
        } else {
            push_str(&mut s, "  ");
        }
        push_str(&mut s, file_name);
        push_char(&mut s, '\n');
    }
    s
}

proof fn lemma_hex_digit_char(v: u8)
    requires
        v < 16,
    ensures
        (hex_digit_char(v) as u32) < 0x80,
        (hex_digit_char(v) as u32) as u8 == hex_char(v),
        !is_white_space(hex_digit_char(v)),
{
}

/// The hexadecimal text is ASCII, holds no white space, and its UTF-8
/// bytes are what `encode_hex` produces.
pub proof fn lemma_hex_text(d: Seq<u8>)
    ensures
        hex_text(d).len() == 2 * d.len(),
        forall|i: int| 0 <= i < hex_text(d).len() ==> (#[trigger] hex_text(d)[i] as u32) < 0x80,
        forall|i: int| 0 <= i < hex_text(d).len() ==> !is_white_space(#[trigger] hex_text(d)[i]),
        encode_utf8(hex_text(d)) == encode_hex_spec(d),
{
    let h = hex_text(d);
    assert forall|i: int| 0 <= i < h.len() implies {
        &&& (#[trigger] h[i] as u32) < 0x80
        &&& !is_white_space(h[i])
        &&& (h[i] as u32) as u8 == encode_hex_spec(d)[i]
    } by {
        lemma_hex_digit_char(d[i / 2] / 16);
        lemma_hex_digit_char(d[i / 2] % 16);
    }
    lemma_ascii_utf8(h);
    assert(encode_utf8(h) =~= encode_hex_spec(d));
}

/// The spans of the words of `l` when it is `a`, one space, `b`, some
/// white space and a last word `c`: the words are `a`, `b`, `c`.
proof fn lemma_three_words(l: Seq<char>, p1: int, p2: int, p3: int)
    requires
        0 < p1 < p2 < p3 <= l.len(),
        p1 + 1 < p2,
        forall|k: int| 0 <= k < p1 ==> !is_white_space(#[trigger] l[k]),
        is_white_space(l[p1]),
        forall|k: int| p1 + 1 <= k < p2 ==> !is_white_space(#[trigger] l[k]),
        forall|k: int| p2 <= k < p3 ==> is_white_space(#[trigger] l[k]),
        forall|k: int| p3 <= k < l.len() ==> !is_white_space(#[trigger] l[k]),
        p3 < l.len(),
        !is_white_space(l[p1 + 1]),
    ensures
        word_spans(l) == seq![(0int, p1), (p1 + 1, p2), (p3, l.len() as int)],
{
    let n = l.len() as int;
    lemma_skip_white_space_at(l, 0, 0);
    lemma_word_end_at(l, 0, p1);
    lemma_skip_white_space_at(l, p1, p1 + 1);
    lemma_word_end_at(l, p1 + 1, p2);
    lemma_skip_white_space_at(l, p2, p3);
    lemma_word_end_at(l, p3, n);
    lemma_skip_white_space_at(l, n, n);
    assert(spans_from(l, n) =~= seq![]);
    assert(spans_from(l, p3) == seq![(p3, n)] + spans_from(l, n));
    assert(spans_from(l, p2) == seq![(p3, n)] + spans_from(l, n)) by {
        assert(skip_white_space(l, p2) == p3);
    }
    assert(spans_from(l, p1) == seq![(p1 + 1, p2)] + spans_from(l, p2));
    assert(spans_from(l, 0) == seq![(0int, p1)] + spans_from(l, p1));
    assert(word_spans(l) =~= seq![(0int, p1), (p1 + 1, p2), (p3, n)]);
}

/// The mode mark of a printed line: `*` for binary, a space for text.
pub open spec fn mode_mark(binary: bool) -> char {
    if binary {
        '*'
    } else {
        ' '
    }
}

/// A line that hash mode prints with the algorithm named (several
/// algorithms, or verbose output), for a file name without white space
/// (and not empty in text mode), is read back in check mode as a request to
/// verify that file, in the mode it was printed in, with that algorithm,
/// against that digest.
pub proof fn named_line_reads_back(
    a: Alg,
    digest: Seq<u8>,
    binary: bool,
    file_name: Seq<char>,
    algs: Seq<Alg>,
    index: int,
)
    requires
        digest.len() == a.digest_len(),
        forall|i: int| 0 <= i < file_name.len() ==> !is_white_space(#[trigger] file_name[i]),
        binary || file_name.len() > 0,
    ensures
        ({
            let printed = line_prefix(a, false, true, false, file_name) + hex_text(digest)
                + line_suffix(false, false, true, binary, file_name);
            let v = check_line_verdict(algs, index, printed.drop_last());
            &&& !v.panics
            &&& v.parsed_alg == Some(a)
            &&& v.outcome == LineOutcomeSpec::Verify(seq![a], digest, binary, file_name)
        }),
{
    lemma_hex_text(digest);
    decode_encode_roundtrip(digest);
    lemma_named_line_reads_back_with(a, digest, hex_text(digest), binary, file_name, algs, index);
}

/// A line that hash mode prints for a single algorithm, without naming
/// it, for a file name without white space (and not empty in text mode), is
/// read back in check mode as a request to verify that file, in the mode it
/// was printed in, against that digest, with the session's algorithms; on
/// the first line of a session without algorithms, the algorithm is guessed
/// from the digest length.
pub proof fn bare_line_reads_back(
    a: Alg,
    digest: Seq<u8>,
    binary: bool,
    file_name: Seq<char>,
    algs: Seq<Alg>,
    index: int,
)
    requires
        digest.len() == a.digest_len(),
        forall|i: int| 0 <= i < file_name.len() ==> !is_white_space(#[trigger] file_name[i]),
        binary || file_name.len() > 0,
    ensures
        ({
            let printed = line_prefix(a, false, false, false, file_name) + hex_text(digest)
                + line_suffix(false, false, false, binary, file_name);
            let v = check_line_verdict(algs, index, printed.drop_last());
            let algs_after = if index == 0 && algs.len() == 0 {
                seq![default_for_size(digest.len() as int).unwrap()]
            } else {
                algs
            };
            &&& !v.panics
            &&& v.parsed_alg is None
            &&& v.algs_after == algs_after
            &&& v.outcome == LineOutcomeSpec::Verify(algs_after, digest, binary, file_name)
        }),
{
    lemma_hex_text(digest);
    decode_encode_roundtrip(digest);
    lemma_bare_line_reads_back_with(a, digest, hex_text(digest), binary, file_name, algs, index);
}

/// `h` is a hexadecimal text of `d`, in any mix of upper and lower case:
/// ASCII characters, two digits per byte, the first worth sixteen times its
/// value.
pub open spec fn hex_chars_of(h: Seq<char>, d: Seq<u8>) -> bool {
    &&& forall|i: int| 0 <= i < h.len() ==> (#[trigger] h[i] as u32) < 0x80
    &&& is_hex_text_of(h.map_values(|c: char| (c as u32) as u8), d)
}

proof fn lemma_hex_chars(h: Seq<char>, d: Seq<u8>)
    requires
        hex_chars_of(h, d),
    ensures
        h.len() == 2 * d.len(),
        forall|i: int| 0 <= i < h.len() ==> !is_white_space(#[trigger] h[i]),
        decode_hex(encode_utf8(h)) == (d, None::<u8>),
{
    let t = h.map_values(|c: char| (c as u32) as u8);
    assert forall|k: int| 0 <= k < h.len() implies !is_white_space(#[trigger] h[k]) by {
        let i = k / 2;
        assert(0 <= i < d.len());
        assert(hex_digit(t[2 * i]) is Some);
        assert(t[k] == (h[k] as u32) as u8);
        if k == 2 * i {
        } else {
            assert(k == 2 * i + 1);
        }
        assert(hex_digit(t[k]) is Some);
    }
    lemma_ascii_utf8(h);
    decode_hex_text(t, d);
}

/// A checksum line with the algorithm named, as hash mode prints it, whose
/// digest is written in any mix of upper- and lower-case hexadecimal
/// digits, is read back as a request to verify the file with that
/// algorithm against the digest those digits stand for: the case of the
/// digits does not matter.
pub proof fn named_hex_line_reads_back(
    a: Alg,
    digest: Seq<u8>,
    h: Seq<char>,
    binary: bool,
    file_name: Seq<char>,
    algs: Seq<Alg>,
    index: int,
)
    requires
        digest.len() == a.digest_len(),
        hex_chars_of(h, digest),
        forall|i: int| 0 <= i < file_name.len() ==> !is_white_space(#[trigger] file_name[i]),
        binary || file_name.len() > 0,
    ensures
        ({
            let line = line_prefix(a, false, true, false, file_name) + h + line_suffix(
                false,
                false,
                true,
                binary,
                file_name,
            );
            let v = check_line_verdict(algs, index, line.drop_last());
            &&& !v.panics
            &&& v.parsed_alg == Some(a)
            &&& v.outcome == LineOutcomeSpec::Verify(seq![a], digest, binary, file_name)
        }),
{
    lemma_hex_chars(h, digest);
    lemma_named_line_reads_back_with(a, digest, h, binary, file_name, algs, index);
}

/// A checksum line without an algorithm word, as hash mode prints it,
/// whose digest is written in any mix of upper- and lower-case hexadecimal
/// digits, is read back as a request to verify the file against the digest
/// those digits stand for, with the session's algorithms (guessed from the
/// digest's length on the first line of a session without any): the case
/// of the digits does not matter.
pub proof fn bare_hex_line_reads_back(
    a: Alg,
    digest: Seq<u8>,
    h: Seq<char>,
    binary: bool,
    file_name: Seq<char>,
    algs: Seq<Alg>,
    index: int,
)
    requires
        digest.len() == a.digest_len(),
        hex_chars_of(h, digest),
        forall|i: int| 0 <= i < file_name.len() ==> !is_white_space(#[trigger] file_name[i]),
        binary || file_name.len() > 0,
    ensures
        ({
            let line = line_prefix(a, false, false, false, file_name) + h + line_suffix(
                false,
                false,
                false,
                binary,
                file_name,
            );
            let v = check_line_verdict(algs, index, line.drop_last());
            let algs_after = if index == 0 && algs.len() == 0 {
                seq![default_for_size(digest.len() as int).unwrap()]
            } else {
                algs
            };
            &&& !v.panics
            &&& v.parsed_alg is None
            &&& v.algs_after == algs_after
            &&& v.outcome == LineOutcomeSpec::Verify(algs_after, digest, binary, file_name)
        }),
{
    lemma_hex_chars(h, digest);
    lemma_bare_line_reads_back_with(a, digest, h, binary, file_name, algs, index);
}

proof fn lemma_named_line_reads_back_with(
    a: Alg,
    digest: Seq<u8>,
    h: Seq<char>,
    binary: bool,
    file_name: Seq<char>,
    algs: Seq<Alg>,
    index: int,
)
    requires
        digest.len() == a.digest_len(),
        forall|i: int| 0 <= i < file_name.len() ==> !is_white_space(#[trigger] file_name[i]),
        binary || file_name.len() > 0,
        h.len() == 2 * digest.len(),
        forall|i: int| 0 <= i < h.len() ==> (#[trigger] h[i] as u32) < 0x80,
        forall|i: int| 0 <= i < h.len() ==> !is_white_space(#[trigger] h[i]),
        decode_hex(encode_utf8(h)) == (digest, None::<u8>),
    ensures
        ({
            let printed = line_prefix(a, false, true, false, file_name) + h
                + line_suffix(false, false, true, binary, file_name);
            let v = check_line_verdict(algs, index, printed.drop_last());
            &&& !v.panics
            &&& v.parsed_alg == Some(a)
            &&& v.outcome == LineOutcomeSpec::Verify(seq![a], digest, binary, file_name)
        }),
{
    reveal_strlit(" ");
    reveal_strlit(" *");
    reveal_strlit("  ");
    let name = a.value_name();
    lemma_value_name_plain(a);
    let printed = line_prefix(a, false, true, false, file_name) + h + line_suffix(
        false,
        false,
        true,
        binary,
        file_name,
    );
    let m = mode_mark(binary);
    let l = name + seq![' '] + h + seq![' ', m] + file_name;
    assert(printed.drop_last() =~= l);
    let p1 = name.len() as int;
    let p2 = p1 + 1 + h.len();
    let p3 = if binary {
        p2 + 1
    } else {
        p2 + 2
    };
    let n = l.len() as int;
    assert forall|k: int| 0 <= k < p1 implies #[trigger] l[k] == name[k] && !is_white_space(l[k]) && (l[k] as u32) < 0x80 by {
        assert(0x21 <= (name[k] as u32) < 0x7f);
    }
    assert(l[p1] == ' ');
    assert forall|k: int| p1 + 1 <= k < p2 implies #[trigger] l[k] == h[k - p1 - 1] && !is_white_space(l[k]) && (l[k] as u32) < 0x80 by {
        assert(h[k - p1 - 1] == l[k]);
    }
    assert(l[p2] == ' ');
    assert(l[p2 + 1] == m);
    assert forall|k: int| p3 <= k < n implies !is_white_space(#[trigger] l[k]) by {
        if k > p2 + 1 {
            assert(l[k] == file_name[k - p2 - 2]);
        }
    }
    assert forall|k: int| p2 <= k < p3 implies is_white_space(#[trigger] l[k]) by {}
    lemma_three_words(l, p1, p2, p3);
    let spans = word_spans(l);
    assert(span_text(l, spans[0]) =~= name);
    assert(span_text(l, spans[1]) =~= h);
    names_read_back(a);
    lemma_ascii_utf8(name);
    lemma_ascii_utf8(h);
    assert forall|k: int| 0 <= k < p2 implies (#[trigger] l[k] as u32) < 0x80 by {
        if k < p1 {
        } else if k == p1 {
        } else {
            assert(l[k] == h[k - p1 - 1]);
        }
    }
    lemma_char_index_at_ascii(l, p2);
    assert(l.skip(p2 + 2) =~= file_name);
    assert((utf8_len(h) as usize) / 2 == digest.len());
}

proof fn lemma_bare_line_reads_back_with(
    a: Alg,
    digest: Seq<u8>,
    h: Seq<char>,
    binary: bool,
    file_name: Seq<char>,
    algs: Seq<Alg>,
    index: int,
)
    requires
        digest.len() == a.digest_len(),
        forall|i: int| 0 <= i < file_name.len() ==> !is_white_space(#[trigger] file_name[i]),
        binary || file_name.len() > 0,
        h.len() == 2 * digest.len(),
        forall|i: int| 0 <= i < h.len() ==> (#[trigger] h[i] as u32) < 0x80,
        forall|i: int| 0 <= i < h.len() ==> !is_white_space(#[trigger] h[i]),
        decode_hex(encode_utf8(h)) == (digest, None::<u8>),
    ensures
        ({
            let printed = line_prefix(a, false, false, false, file_name) + h
                + line_suffix(false, false, false, binary, file_name);
            let v = check_line_verdict(algs, index, printed.drop_last());
            let algs_after = if index == 0 && algs.len() == 0 {
                seq![default_for_size(digest.len() as int).unwrap()]
            } else {
                algs
            };
            &&& !v.panics
            &&& v.parsed_alg is None
            &&& v.algs_after == algs_after
            &&& v.outcome == LineOutcomeSpec::Verify(algs_after, digest, binary, file_name)
        }),
{
    reveal_strlit(" *");
    reveal_strlit("  ");
    let printed = line_prefix(a, false, false, false, file_name) + h + line_suffix(
        false,
        false,
        false,
        binary,
        file_name,
    );
    let m = mode_mark(binary);
    let l = h + seq![' ', m] + file_name;
    assert(printed.drop_last() =~= l);
    let p1 = h.len() as int;
    let p3 = if binary {
        p1 + 1
    } else {
        p1 + 2
    };
    let n = l.len() as int;
    assert forall|k: int| 0 <= k < p1 implies #[trigger] l[k] == h[k] && !is_white_space(l[k]) && (l[k] as u32) < 0x80 by {}
    assert(l[p1] == ' ');
    assert(l[p1 + 1] == m);
    assert forall|k: int| p3 <= k < n implies !is_white_space(#[trigger] l[k]) by {
        if k > p1 + 1 {
            assert(l[k] == file_name[k - p1 - 2]);
        }
    }
    assert forall|k: int| p1 <= k < p3 implies is_white_space(#[trigger] l[k]) by {}
    lemma_skip_white_space_at(l, 0, 0);
    lemma_word_end_at(l, 0, p1);
    lemma_skip_white_space_at(l, p1, p3);
    lemma_word_end_at(l, p3, n);
    lemma_skip_white_space_at(l, n, n);
    assert(spans_from(l, n) =~= seq![]);
    assert(spans_from(l, p1) == seq![(p3, n)] + spans_from(l, n));
    assert(spans_from(l, 0) == seq![(0int, p1)] + spans_from(l, p1));
    let spans = word_spans(l);
    assert(spans =~= seq![(0int, p1), (p3, n)]);
    assert(span_text(l, spans[0]) =~= h);
    lemma_ascii_utf8(h);
    lemma_char_index_at_ascii(l, p1);
    assert(l.skip(p1 + 2) =~= file_name);
    assert((utf8_len(h) as usize) / 2 == digest.len());
}

} // verus!
