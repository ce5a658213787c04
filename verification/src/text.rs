use vstd::prelude::*;
use vstd::utf8::*;

verus! {

/// The ASCII lower-case of a character, as a code point.
pub open spec fn ascii_lower(c: char) -> u32 {
    let x = c as u32;
    if 65 <= x <= 90 {
        (x + 32) as u32
    } else {
        x
    }
}

/// Equality up to ASCII case, character by character.
pub open spec fn ascii_eq_ignore_case(a: Seq<char>, b: Seq<char>) -> bool {
    &&& a.len() == b.len()
    &&& forall|i: int| 0 <= i < a.len() ==> ascii_lower(#[trigger] a[i]) == ascii_lower(b[i])
}

/// The characters of a string slice.
pub fn chars_of(s: &str) -> (v: Vec<char>)
    ensures
        v@ == s@,
{
    let mut v: Vec<char> = Vec::new();
    for c in it: s.chars()
        invariant
            v@ == it.seq().take(it.index() as int),
    {
        v.push(c);
    }
    v
}

fn lower_code(c: char) -> (r: u32)
    ensures
        r == ascii_lower(c),
{
    let x = c as u32;
    if 65 <= x && x <= 90 {
        x + 32
    } else {
        x
    }
}

/// Equality up to ASCII case.
pub fn eq_ignore_ascii_case(a: &[char], b: &[char]) -> (r: bool)
    ensures
        r == ascii_eq_ignore_case(a@, b@),
{
    if a.len() != b.len() {
        return false;
    }
    let mut i: usize = 0;
    while i < a.len()
        invariant
            0 <= i <= a.len(),
            a.len() == b.len(),
            forall|j: int| 0 <= j < i ==> ascii_lower(#[trigger] a@[j]) == ascii_lower(b@[j]),
        decreases a.len() - i,
    {
        if lower_code(a[i]) != lower_code(b[i]) {
            return false;
        }
        i = i + 1;
    }
    true
}

/// Appends a character to a string.
///
/// Trusted: calls `String::push`, which appends the character to the end of
/// the string; the contract says exactly that.
#[verifier::external_body]
pub(crate) fn push_char(s: &mut String, c: char)
    ensures
        final(s)@ == old(s)@.push(c),
{
    s.push(c);
}

/// Appends the characters of `t` to `s`.
pub fn push_str(s: &mut String, t: &str)
    ensures
        final(s)@ == old(s)@ + t@,
{
    let chars = chars_of(t);
    let mut i: usize = 0;
    while i < chars.len()
        invariant
            0 <= i <= chars.len(),
            chars@ == t@,
            s@ == old(s)@ + t@.take(i as int),
        decreases chars.len() - i,
    {
        push_char(s, chars[i]);
        i = i + 1;
        assert(t@.take(i as int) =~= t@.take(i - 1).push(chars@[i - 1]));
    }
    assert(t@.take(i as int) =~= t@);
}

/// The decimal digit character of `d`.
pub open spec fn digit_char(d: nat) -> char {
    (48 + d) as char
}

/// The decimal text of a number.
pub open spec fn decimal(n: nat) -> Seq<char>
    decreases n,
{
    if n < 10 {
        seq![digit_char(n)]
    } else {
        decimal(n / 10).push(digit_char(n % 10))
    }
}

fn digit(d: u8) -> (c: char)
    requires
        d < 10,
    ensures
        c == digit_char(d as nat),
{
    match d {
        0 => '0',
        1 => '1',
        2 => '2',
        3 => '3',
        4 => '4',
        5 => '5',
        6 => '6',
        7 => '7',
        8 => '8',
        _ => '9',
    }
}

/// Appends the decimal text of a byte value.
pub fn push_decimal_u8(s: &mut String, n: u8)
    ensures
        final(s)@ == old(s)@ + decimal(n as nat),
{
    reveal_with_fuel(decimal, 3);
    if n >= 100 {
        push_char(s, digit(n / 100));
    }
    if n >= 10 {
        push_char(s, digit((n / 10) % 10));
    }
    push_char(s, digit(n % 10));
    if n >= 100 {
        assert(decimal(n as nat) =~= seq![digit_char((n / 100) as nat), digit_char(((n / 10) % 10) as nat), digit_char((n % 10) as nat)]);
    } else if n >= 10 {
        assert(decimal(n as nat) =~= seq![digit_char(((n / 10) % 10) as nat), digit_char((n % 10) as nat)]);
    }
}

/// Unicode `White_Space`, the characters that `char::is_whitespace` accepts
/// and at which `str::split_whitespace` and `str::trim_start` cut.
pub open spec fn is_white_space(c: char) -> bool {
    let x = c as u32;
    ||| 0x09 <= x <= 0x0D
    ||| x == 0x20
    ||| x == 0x85
    ||| x == 0xA0
    ||| x == 0x1680
    ||| 0x2000 <= x <= 0x200A
    ||| x == 0x2028
    ||| x == 0x2029
    ||| x == 0x202F
    ||| x == 0x205F
    ||| x == 0x3000
}

/// Whether `c` is Unicode white space.
pub fn char_is_white_space(c: char) -> (r: bool)
    ensures
        r == is_white_space(c),
{
    let x = c as u32;
    (0x09 <= x && x <= 0x0D) || x == 0x20 || x == 0x85 || x == 0xA0 || x == 0x1680 || (0x2000 <= x
        && x <= 0x200A) || x == 0x2028 || x == 0x2029 || x == 0x202F || x == 0x205F || x == 0x3000
}

/// The first position at or after `i` that holds no white space (or the end).
pub open spec fn skip_white_space(s: Seq<char>, i: int) -> int
    decreases s.len() - i,
{
    if 0 <= i < s.len() && is_white_space(s[i]) {
        skip_white_space(s, i + 1)
    } else {
        i
    }
}

/// The first position at or after `i` that holds white space (or the end).
pub open spec fn word_end(s: Seq<char>, i: int) -> int
    decreases s.len() - i,
{
    if 0 <= i < s.len() && !is_white_space(s[i]) {
        word_end(s, i + 1)
    } else {
        i
    }
}

pub proof fn lemma_skip_white_space(s: Seq<char>, i: int)
    requires
        0 <= i <= s.len(),
    ensures
        i <= skip_white_space(s, i) <= s.len(),
        forall|k: int| i <= k < skip_white_space(s, i) ==> is_white_space(#[trigger] s[k]),
        skip_white_space(s, i) < s.len() ==> !is_white_space(s[skip_white_space(s, i)]),
    decreases s.len() - i,
{
    if i < s.len() && is_white_space(s[i]) {
        lemma_skip_white_space(s, i + 1);
    }
}

pub proof fn lemma_word_end(s: Seq<char>, i: int)
    requires
        0 <= i <= s.len(),
    ensures
        i <= word_end(s, i) <= s.len(),
        forall|k: int| i <= k < word_end(s, i) ==> !is_white_space(#[trigger] s[k]),
        word_end(s, i) < s.len() ==> is_white_space(s[word_end(s, i)]),
    decreases s.len() - i,
{
    if i < s.len() && !is_white_space(s[i]) {
        lemma_word_end(s, i + 1);
    }
}

/// The spans `(start, end)` of the maximal runs of non-white-space
/// characters from position `i` on, in order.
pub open spec fn spans_from(s: Seq<char>, i: int) -> Seq<(int, int)>
    decreases s.len() - i,
{
    if i < 0 || i > s.len() {
        seq![]
    } else {
        let a = skip_white_space(s, i);
        if a >= s.len() {
            seq![]
        } else {
            let b = word_end(s, a);
            proof {
                lemma_skip_white_space(s, i);
                lemma_word_end(s, a);
            }
            seq![(a, b)] + spans_from(s, b)
        }
    }
}

pub proof fn lemma_spans_from_bounds(s: Seq<char>, i: int)
    requires
        0 <= i <= s.len(),
    ensures
        forall|k: int|
            0 <= k < spans_from(s, i).len() ==> i <= (#[trigger] spans_from(s, i)[k]).0
                < spans_from(s, i)[k].1 <= s.len(),
    decreases s.len() - i,
{
    let a = skip_white_space(s, i);
    lemma_skip_white_space(s, i);
    if a < s.len() {
        let b = word_end(s, a);
        lemma_word_end(s, a);
        lemma_spans_from_bounds(s, b);
        let sp = spans_from(s, i);
        assert(sp == seq![(a, b)] + spans_from(s, b));
        assert forall|k: int| 0 <= k < sp.len() implies i <= (#[trigger] sp[k]).0 < sp[k].1 <= s.len() by {
            if k > 0 {
                assert(sp[k] == spans_from(s, b)[k - 1]);
            }
        }
    }
}

/// The spans of the words of `s`: what `str::split_whitespace` yields.
pub open spec fn word_spans(s: Seq<char>) -> Seq<(int, int)> {
    spans_from(s, 0)
}

/// The spans of the words of `s`, as `(start, end)` character positions.
pub fn word_spans_of(s: &[char]) -> (r: Vec<(usize, usize)>)
    ensures
        r@.map_values(|p: (usize, usize)| (p.0 as int, p.1 as int)) == word_spans(s@),
{
    let n = s.len();
    let mut out: Vec<(usize, usize)> = Vec::new();
    let mut i: usize = 0;
    while i < n
        invariant
            0 <= i <= n,
            n == s@.len(),
            word_spans(s@) == out@.map_values(|p: (usize, usize)| (p.0 as int, p.1 as int))
                + spans_from(s@, i as int),
        decreases n - i,
    {
        let mut a = i;
        while a < n && char_is_white_space(s[a])
            invariant
                i <= a <= n,
                n == s@.len(),
                skip_white_space(s@, a as int) == skip_white_space(s@, i as int),
            decreases n - a,
        {
            a = a + 1;
        }
        if a == n {
            assert(spans_from(s@, i as int) =~= seq![]);
            i = n;
        } else {
            let mut b = a + 1;
            while b < n && !char_is_white_space(s[b])
                invariant
                    a < b <= n,
                    n == s@.len(),
                    word_end(s@, b as int) == word_end(s@, a as int),
                decreases n - b,
            {
                b = b + 1;
            }
            let ghost before = out@.map_values(|p: (usize, usize)| (p.0 as int, p.1 as int));
            out.push((a, b));
            assert(out@.map_values(|p: (usize, usize)| (p.0 as int, p.1 as int)) =~= before.push(
                (a as int, b as int),
            ));
            assert(spans_from(s@, i as int) =~= seq![(a as int, b as int)] + spans_from(s@, b as int));
            i = b;
        }
    }
    assert(spans_from(s@, n as int) =~= seq![]);
    assert(out@.map_values(|p: (usize, usize)| (p.0 as int, p.1 as int)) + seq![] =~= out@.map_values(|p: (usize, usize)| (p.0 as int, p.1 as int)));
    out
}

/// Length in bytes of the UTF-8 encoding of `s`.
pub open spec fn utf8_len(s: Seq<char>) -> nat {
    encode_utf8(s).len()
}

pub proof fn lemma_encode_utf8_concat(a: Seq<char>, b: Seq<char>)
    ensures
        encode_utf8(a + b) == encode_utf8(a) + encode_utf8(b),
    decreases a.len(),
{
    if a.len() == 0 {
        assert(a + b =~= b);
        assert(encode_utf8(a) =~= seq![]);
        assert(encode_utf8(a) + encode_utf8(b) =~= encode_utf8(b));
    } else {
        assert((a + b).drop_first() =~= a.drop_first() + b);
        lemma_encode_utf8_concat(a.drop_first(), b);
        assert(encode_utf8(a + b) =~= encode_utf8(a) + encode_utf8(b));
    }
}

pub proof fn lemma_encode_utf8_single(c: char)
    ensures
        encode_utf8(seq![c]) == encode_scalar(c as u32),
{
    assert(seq![c].drop_first() =~= Seq::<char>::empty());
    assert(encode_utf8(Seq::<char>::empty()) =~= seq![]);
    assert(encode_utf8(seq![c]) =~= encode_scalar(c as u32));
}

/// Number of bytes of the UTF-8 encoding of one character.
pub open spec fn char_utf8_len(c: char) -> nat {
    encode_scalar(c as u32).len()
}

/// Number of bytes of the UTF-8 encoding of `c`.
pub fn char_width(c: char) -> (w: usize)
    ensures
        w == char_utf8_len(c),
        1 <= w <= 4,
        w == 1 <==> (c as u32) < 0x80,
{
    proof {
        char_is_scalar(c);
    }
    let x = c as u32;
    if x < 0x80 {
        1
    } else if x < 0x800 {
        2
    } else if x < 0x10000 {
        3
    } else {
        4
    }
}

pub proof fn lemma_utf8_len_extend(s: Seq<char>, a: int, i: int)
    requires
        0 <= a <= i < s.len(),
    ensures
        utf8_len(s.subrange(a, i + 1)) == utf8_len(s.subrange(a, i)) + char_utf8_len(s[i]),
{
    assert(s.subrange(a, i + 1) =~= s.subrange(a, i) + seq![s[i]]);
    lemma_encode_utf8_concat(s.subrange(a, i), seq![s[i]]);
    lemma_encode_utf8_single(s[i]);
}

pub proof fn lemma_char_utf8_len_pos(c: char)
    ensures
        1 <= char_utf8_len(c) <= 4,
{
    char_is_scalar(c);
}

/// The byte length of a prefix grows strictly with the prefix.
pub proof fn lemma_utf8_len_prefix_strict(s: Seq<char>, i: int, j: int)
    requires
        0 <= i < j <= s.len(),
    ensures
        utf8_len(s.take(i)) < utf8_len(s.take(j)),
    decreases j - i,
{
    assert(s.take(j) =~= s.subrange(0, j));
    assert(s.subrange(0, j) =~= s.subrange(0, j - 1) + seq![s[j - 1]]);
    lemma_utf8_len_extend(s, 0, j - 1);
    lemma_char_utf8_len_pos(s[j - 1]);
    assert(s.take(j - 1) =~= s.subrange(0, j - 1));
    if i < j - 1 {
        lemma_utf8_len_prefix_strict(s, i, j - 1);
    }
}

/// The number of bytes of the characters from position `a` up to `b`.
pub fn utf8_len_of_range(s: &[char], a: usize, b: usize) -> (n: u128)
    requires
        a <= b <= s@.len(),
    ensures
        n == utf8_len(s@.subrange(a as int, b as int)),
        n <= 4 * (b - a),
{
    let mut acc: u128 = 0;
    let mut i = a;
    assert(s@.subrange(a as int, a as int) =~= Seq::<char>::empty());
    assert(encode_utf8(Seq::<char>::empty()) =~= seq![]);
    while i < b
        invariant
            a <= i <= b <= s@.len(),
            acc == utf8_len(s@.subrange(a as int, i as int)),
            acc <= 4 * (i - a),
        decreases b - i,
    {
        proof {
            lemma_utf8_len_extend(s@, a as int, i as int);
        }
        acc = acc + char_width(s[i]) as u128;
        i = i + 1;
    }
    acc
}

/// The character position at which the byte offset `k` of the UTF-8
/// encoding of `s` falls, where it falls between two characters (or at an
/// end): the positions at which a string can be sliced.
pub open spec fn char_index_at_byte(s: Seq<char>, k: int) -> Option<int> {
    if exists|j: int| 0 <= j <= s.len() && #[trigger] utf8_len(s.take(j)) == k {
        Some(choose|j: int| 0 <= j <= s.len() && #[trigger] utf8_len(s.take(j)) == k)
    } else {
        None
    }
}

/// The character position at byte offset `k`, where one begins there.
pub fn char_index_at(s: &[char], k: u128) -> (r: Option<usize>)
    ensures
        r matches Some(j) ==> char_index_at_byte(s@, k as int) == Some(j as int),
        r is None ==> char_index_at_byte(s@, k as int) is None,
{
    let n = s.len();
    let mut acc: u128 = 0;
    let mut i: usize = 0;
    assert(s@.take(0) =~= s@.subrange(0, 0));
    assert(s@.subrange(0, 0) =~= Seq::<char>::empty());
    assert(encode_utf8(Seq::<char>::empty()) =~= seq![]);
    while i < n && acc < k
        invariant
            0 <= i <= n,
            n == s@.len(),
            acc == utf8_len(s@.take(i as int)),
            acc <= 4 * i,
            forall|j: int| 0 <= j < i ==> #[trigger] utf8_len(s@.take(j)) < k,
        decreases n - i,
    {
        proof {
            lemma_utf8_len_extend(s@, 0, i as int);
            assert(s@.take(i as int) =~= s@.subrange(0, i as int));
            assert(s@.take(i + 1) =~= s@.subrange(0, i + 1));
        }
        acc = acc + char_width(s[i]) as u128;
        i = i + 1;
    }
    if acc == k {
        proof {
            let j = choose|j: int| 0 <= j <= s@.len() && #[trigger] utf8_len(s@.take(j)) == k;
            if j < i {
                lemma_utf8_len_prefix_strict(s@, j, i as int);
            } else if j > i {
                lemma_utf8_len_prefix_strict(s@, i as int, j);
            }
        }
        Some(i)
    } else {
        proof {
            assert forall|j: int| 0 <= j <= s@.len() implies #[trigger] utf8_len(s@.take(j)) != k by {
                if j > i {
                    lemma_utf8_len_prefix_strict(s@, i as int, j);
                }
            }
        }
        None
    }
}

/// A string holding the characters of `s` from position `a` up to `b`.
pub fn string_of_range(s: &[char], a: usize, b: usize) -> (r: String)
    requires
        a <= b <= s@.len(),
    ensures
        r@ == s@.subrange(a as int, b as int),
{
    let mut out = String::new();
    let mut i = a;
    while i < b
        invariant
            a <= i <= b <= s@.len(),
            out@ =~= s@.subrange(a as int, i as int),
        decreases b - i,
    {
        push_char(&mut out, s[i]);
        i = i + 1;
    }
    out
}

/// The first position at or after `i` that holds no white space.
pub fn skip_white_space_from(s: &[char], i: usize) -> (r: usize)
    requires
        i <= s@.len(),
    ensures
        r == skip_white_space(s@, i as int),
{
    let mut a = i;
    while a < s.len() && char_is_white_space(s[a])
        invariant
            i <= a <= s@.len(),
            skip_white_space(s@, a as int) == skip_white_space(s@, i as int),
        decreases s@.len() - a,
    {
        a = a + 1;
    }
    a
}

pub proof fn lemma_skip_white_space_at(s: Seq<char>, i: int, j: int)
    requires
        0 <= i <= j <= s.len(),
        forall|k: int| i <= k < j ==> is_white_space(#[trigger] s[k]),
        j == s.len() || !is_white_space(s[j]),
    ensures
        skip_white_space(s, i) == j,
    decreases j - i,
{
    if i < j {
        lemma_skip_white_space_at(s, i + 1, j);
    }
}

pub proof fn lemma_word_end_at(s: Seq<char>, i: int, j: int)
    requires
        0 <= i <= j <= s.len(),
        forall|k: int| i <= k < j ==> !is_white_space(#[trigger] s[k]),
        j == s.len() || is_white_space(s[j]),
    ensures
        word_end(s, i) == j,
    decreases j - i,
{
    if i < j {
        lemma_word_end_at(s, i + 1, j);
    }
}

/// An ASCII text takes one byte per character.
pub proof fn lemma_ascii_utf8(s: Seq<char>)
    requires
        forall|i: int| 0 <= i < s.len() ==> (#[trigger] s[i] as u32) < 0x80,
    ensures
        encode_utf8(s) == s.map_values(|c: char| (c as u32) as u8),
        utf8_len(s) == s.len(),
    decreases s.len(),
{
    if s.len() == 0 {
        assert(encode_utf8(s) =~= s.map_values(|c: char| (c as u32) as u8));
    } else {
        let c = s[0];
        let x = c as u32;
        assert(x < 0x80);
        assert((x & 0x7F) as u8 == x as u8) by (bit_vector)
            requires
                x < 0x80,
        ;
        let t = s.drop_first();
        assert forall|i: int| 0 <= i < t.len() implies (#[trigger] t[i] as u32) < 0x80 by {
            assert(t[i] == s[i + 1]);
        }
        lemma_ascii_utf8(t);
        assert(encode_scalar(x) =~= seq![x as u8]);
        assert(encode_utf8(s) == encode_scalar(x) + encode_utf8(t));
        assert(encode_utf8(s) =~= s.map_values(|c: char| (c as u32) as u8));
    }
}

/// In an ASCII prefix, byte offsets are character positions.
pub proof fn lemma_char_index_at_ascii(s: Seq<char>, k: int)
    requires
        0 <= k <= s.len(),
        forall|i: int| 0 <= i < k ==> (#[trigger] s[i] as u32) < 0x80,
    ensures
        char_index_at_byte(s, k) == Some(k),
{
    let t = s.take(k);
    assert forall|i: int| 0 <= i < t.len() implies (#[trigger] t[i] as u32) < 0x80 by {
        assert(t[i] == s[i]);
    }
    lemma_ascii_utf8(t);
    assert(utf8_len(s.take(k)) == k);
    let j = choose|j: int| 0 <= j <= s.len() && #[trigger] utf8_len(s.take(j)) == k;
    if j < k {
        lemma_utf8_len_prefix_strict(s, j, k);
    } else if j > k {
        lemma_utf8_len_prefix_strict(s, k, j);
    }
}

/// A byte offset falls between two characters of a text exactly where it
/// is a character boundary of the text's UTF-8 encoding, the offsets at
/// which `str` slicing succeeds; the bytes from there on encode the
/// characters from there on.
pub proof fn char_index_at_byte_is_char_boundary(s: Seq<char>, k: int)
    ensures
        char_index_at_byte(s, k) is Some <==> is_char_boundary(encode_utf8(s), k),
        char_index_at_byte(s, k) matches Some(j) ==> encode_utf8(s.skip(j)) == encode_utf8(s).subrange(
            k,
            encode_utf8(s).len() as int,
        ),
    decreases s.len(),
{
    let bytes = encode_utf8(s);
    encode_utf8_valid_utf8(s);
    if let Some(j) = char_index_at_byte(s, k) {
        assert(s =~= s.take(j) + s.skip(j));
        lemma_encode_utf8_concat(s.take(j), s.skip(j));
        assert(encode_utf8(s.skip(j)) =~= bytes.subrange(k, bytes.len() as int));
    }
    if k == 0 {
        assert(s.take(0) =~= Seq::<char>::empty());
        assert(encode_utf8(Seq::<char>::empty()) =~= seq![]);
        assert(utf8_len(s.take(0)) == 0);
    } else if k < 0 || bytes.len() < k {
        if char_index_at_byte(s, k) is Some {
            let j = char_index_at_byte(s, k).unwrap();
            assert(s =~= s.take(j) + s.skip(j));
            lemma_encode_utf8_concat(s.take(j), s.skip(j));
        }
    } else {
        assert(s.len() > 0) by {
            if s.len() == 0 {
                assert(encode_utf8(s) =~= seq![]);
            }
        }
        let t = s.drop_first();
        let w = char_utf8_len(s[0]);
        encode_utf8_first_scalar(s);
        assert(pop_first_scalar(bytes) =~= encode_utf8(t));
        char_index_at_byte_is_char_boundary(t, k - w);
        lemma_char_utf8_len_pos(s[0]);
        assert forall|j: int| 1 <= j <= s.len() implies #[trigger] utf8_len(s.take(j)) == w + utf8_len(
            t.take(j - 1),
        ) by {
            assert(s.take(j) =~= seq![s[0]] + t.take(j - 1));
            lemma_encode_utf8_concat(seq![s[0]], t.take(j - 1));
            lemma_encode_utf8_single(s[0]);
        }
        if char_index_at_byte(s, k) is Some {
            let j = char_index_at_byte(s, k).unwrap();
            if j == 0 {
                assert(s.take(0) =~= Seq::<char>::empty());
                assert(encode_utf8(Seq::<char>::empty()) =~= seq![]);
            }
            assert(utf8_len(t.take(j - 1)) == k - w);
        }
        if char_index_at_byte(t, k - w) is Some {
            let i = char_index_at_byte(t, k - w).unwrap();
            assert(utf8_len(s.take(i + 1)) == k);
        }
    }
}

} // verus!
