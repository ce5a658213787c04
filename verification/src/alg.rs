use vstd::prelude::*;

use vstd::string::StringSliceAdditionalSpecFns;

use crate::text::{ascii_eq_ignore_case, ascii_lower, chars_of, eq_ignore_ascii_case};

verus! {

/// The digest algorithms the tool can compute.
#[derive(Clone, Copy, Debug, PartialEq, Eq, Structural)]
#[allow(non_camel_case_types)]
pub enum Alg {
    Md5,
    Sha1,
    Sha224,
    Sha256,
    Sha384,
    Sha512,
    Sha512_224,
    Sha512_256,
    Sha3_224,
    Sha3_256,
    Sha3_384,
    Sha3_512,
}

/// Every algorithm, in the order in which the tool lists them.
pub open spec fn all_algs_spec() -> Seq<Alg> {
    seq![
        Alg::Md5,
        Alg::Sha1,
        Alg::Sha224,
        Alg::Sha256,
        Alg::Sha384,
        Alg::Sha512,
        Alg::Sha512_224,
        Alg::Sha512_256,
        Alg::Sha3_224,
        Alg::Sha3_256,
        Alg::Sha3_384,
        Alg::Sha3_512,
    ]
}

/// The algorithms used in hash mode when none is requested.
pub open spec fn default_algs_spec() -> Seq<Alg> {
    seq![Alg::Md5, Alg::Sha1, Alg::Sha256, Alg::Sha512]
}

/// The algorithm assumed for a digest of `n` bytes, where there is one.
pub open spec fn default_for_size(n: int) -> Option<Alg> {
    if n == 16 {
        Some(Alg::Md5)
    } else if n == 20 {
        Some(Alg::Sha1)
    } else if n == 28 {
        Some(Alg::Sha224)
    } else if n == 32 {
        Some(Alg::Sha256)
    } else if n == 48 {
        Some(Alg::Sha384)
    } else if n == 64 {
        Some(Alg::Sha512)
    } else {
        None
    }
}

/// The algorithm whose name or alias equals `s` up to ASCII case, taking the
/// first one in listing order.
pub open spec fn alg_from_name_spec(s: Seq<char>) -> Option<Alg>
    decreases 12int,
{
    alg_from_name_from(s, 0)
}

/// The first algorithm from position `i` of the listing that `s` names.
pub open spec fn alg_from_name_from(s: Seq<char>, i: int) -> Option<Alg>
    decreases 12 - i,
{
    if i < 0 || i >= 12 {
        None
    } else if all_algs_spec()[i].is_named(s) {
        Some(all_algs_spec()[i])
    } else {
        alg_from_name_from(s, i + 1)
    }
}

impl Alg {
    /// The upper-case display name.
    pub open spec fn display_name(self) -> Seq<char> {
        match self {
            Alg::Md5 => "MD5"@,
            Alg::Sha1 => "SHA1"@,
            Alg::Sha224 => "SHA224"@,
            Alg::Sha256 => "SHA256"@,
            Alg::Sha384 => "SHA384"@,
            Alg::Sha512 => "SHA512"@,
            Alg::Sha512_224 => "SHA512-224"@,
            Alg::Sha512_256 => "SHA512-256"@,
            Alg::Sha3_224 => "SHA3-224"@,
            Alg::Sha3_256 => "SHA3-256"@,
            Alg::Sha3_384 => "SHA3-384"@,
            Alg::Sha3_512 => "SHA3-512"@,
        }
    }

    /// The name by which the command line and the digest output call it.
    pub open spec fn value_name(self) -> Seq<char> {
        match self {
            Alg::Md5 => "md5"@,
            Alg::Sha1 => "sha1"@,
            Alg::Sha224 => "sha224"@,
            Alg::Sha256 => "sha256"@,
            Alg::Sha384 => "sha384"@,
            Alg::Sha512 => "sha512"@,
            Alg::Sha512_224 => "sha512-224"@,
            Alg::Sha512_256 => "sha512-256"@,
            Alg::Sha3_224 => "sha3-224"@,
            Alg::Sha3_256 => "sha3-256"@,
            Alg::Sha3_384 => "sha3-384"@,
            Alg::Sha3_512 => "sha3-512"@,
        }
    }

    /// The other spellings accepted for it.
    pub open spec fn aliases(self) -> Seq<Seq<char>> {
        match self {
            Alg::Md5 => seq!["MD5"@],
            Alg::Sha1 => seq!["SHA1"@],
            Alg::Sha224 => seq!["SHA2-224"@, "sha2-224"@, "SHA224"@],
            Alg::Sha256 => seq!["SHA2-256"@, "sha2-256"@, "SHA256"@],
            Alg::Sha384 => seq!["SHA2-384"@, "sha2-384"@, "SHA384"@],
            Alg::Sha512 => seq!["SHA2-512"@, "sha2-512"@, "SHA512"@],
            Alg::Sha512_224 => seq!["SHA512-224"@],
            Alg::Sha512_256 => seq!["SHA512-256"@],
            Alg::Sha3_224 => seq!["SHA3-224"@],
            Alg::Sha3_256 => seq!["SHA3-256"@],
            Alg::Sha3_384 => seq!["SHA3-384"@],
            Alg::Sha3_512 => seq!["SHA3-512"@],
        }
    }

    /// `s` equals the name or one of the aliases, up to ASCII case.
    pub open spec fn is_named(self, s: Seq<char>) -> bool {
        ||| ascii_eq_ignore_case(self.value_name(), s)
        ||| exists|k: int|
            0 <= k < self.aliases().len() && ascii_eq_ignore_case(
                #[trigger] self.aliases()[k],
                s,
            )
    }

    /// Length in bytes of the digests it produces.
    pub open spec fn digest_len(self) -> nat {
        match self {
            Alg::Md5 => 16,
            Alg::Sha1 => 20,
            Alg::Sha224 => 28,
            Alg::Sha256 => 32,
            Alg::Sha384 => 48,
            Alg::Sha512 => 64,
            Alg::Sha512_224 => 28,
            Alg::Sha512_256 => 32,
            Alg::Sha3_224 => 28,
            Alg::Sha3_256 => 32,
            Alg::Sha3_384 => 48,
            Alg::Sha3_512 => 64,
        }
    }

    /// The upper-case display name.
    pub fn name(&self) -> (s: &'static str)
        ensures
            s@ == self.display_name(),
    {
        match self {
            Alg::Md5 => "MD5",
            Alg::Sha1 => "SHA1",
            Alg::Sha224 => "SHA224",
            Alg::Sha256 => "SHA256",
            Alg::Sha384 => "SHA384",
            Alg::Sha512 => "SHA512",
            Alg::Sha512_224 => "SHA512-224",
            Alg::Sha512_256 => "SHA512-256",
            Alg::Sha3_224 => "SHA3-224",
            Alg::Sha3_256 => "SHA3-256",
            Alg::Sha3_384 => "SHA3-384",
            Alg::Sha3_512 => "SHA3-512",
        }
    }

    /// The name by which the command line and the digest output call it.
    pub fn cli_name(&self) -> (s: &'static str)
        ensures
            s@ == self.value_name(),
    {
        match self {
            Alg::Md5 => "md5",
            Alg::Sha1 => "sha1",
            Alg::Sha224 => "sha224",
            Alg::Sha256 => "sha256",
            Alg::Sha384 => "sha384",
            Alg::Sha512 => "sha512",
            Alg::Sha512_224 => "sha512-224",
            Alg::Sha512_256 => "sha512-256",
            Alg::Sha3_224 => "sha3-224",
            Alg::Sha3_256 => "sha3-256",
            Alg::Sha3_384 => "sha3-384",
            Alg::Sha3_512 => "sha3-512",
        }
    }

    /// Length in bytes of the digests it produces.
    pub fn output_len(&self) -> (n: usize)
        ensures
            n == self.digest_len(),
    {
        match self {
            Alg::Md5 => 16,
            Alg::Sha1 => 20,
            Alg::Sha224 => 28,
            Alg::Sha256 => 32,
            Alg::Sha384 => 48,
            Alg::Sha512 => 64,
            Alg::Sha512_224 => 28,
            Alg::Sha512_256 => 32,
            Alg::Sha3_224 => 28,
            Alg::Sha3_256 => 32,
            Alg::Sha3_384 => 48,
            Alg::Sha3_512 => 64,
        }
    }

    /// Whether `s` is the name or an alias of this algorithm, up to ASCII case.
    pub fn named_by(&self, s: &[char]) -> (r: bool)
        ensures
            r == self.is_named(s@),
    {
        let name = chars_of(self.cli_name());
        if eq_ignore_ascii_case(name.as_slice(), s) {
            return true;
        }
        let aliases: Vec<&'static str> = match self {
            Alg::Md5 => vec!["MD5"],
            Alg::Sha1 => vec!["SHA1"],
            Alg::Sha224 => vec!["SHA2-224", "sha2-224", "SHA224"],
            Alg::Sha256 => vec!["SHA2-256", "sha2-256", "SHA256"],
            Alg::Sha384 => vec!["SHA2-384", "sha2-384", "SHA384"],
            Alg::Sha512 => vec!["SHA2-512", "sha2-512", "SHA512"],
            Alg::Sha512_224 => vec!["SHA512-224"],
            Alg::Sha512_256 => vec!["SHA512-256"],
            Alg::Sha3_224 => vec!["SHA3-224"],
            Alg::Sha3_256 => vec!["SHA3-256"],
            Alg::Sha3_384 => vec!["SHA3-384"],
            Alg::Sha3_512 => vec!["SHA3-512"],
        };
        assert(aliases@.map_values(|a: &str| a@) =~= self.aliases());
        let mut k: usize = 0;
        while k < aliases.len()
            invariant
                0 <= k <= aliases.len(),
                aliases@.map_values(|a: &str| a@) == self.aliases(),
                forall|j: int| 0 <= j < k ==> !ascii_eq_ignore_case(#[trigger] self.aliases()[j], s@),
            decreases aliases.len() - k,
        {
            let candidate = chars_of(aliases[k]);
            assert(candidate@ == self.aliases()[k as int]);
            if eq_ignore_ascii_case(candidate.as_slice(), s) {
                return true;
            }
            k = k + 1;
        }
        false
    }
}

/// Every algorithm, in the order in which the tool lists them.
pub fn all_algs() -> (v: Vec<Alg>)
    ensures
        v@ == all_algs_spec(),
{
    let v = vec![
        Alg::Md5,
        Alg::Sha1,
        Alg::Sha224,
        Alg::Sha256,
        Alg::Sha384,
        Alg::Sha512,
        Alg::Sha512_224,
        Alg::Sha512_256,
        Alg::Sha3_224,
        Alg::Sha3_256,
        Alg::Sha3_384,
        Alg::Sha3_512,
    ];
    assert(v@ =~= all_algs_spec());
    v
}

/// The algorithms used in hash mode when none is requested.
pub fn default_algs() -> (v: Vec<Alg>)
    ensures
        v@ == default_algs_spec(),
{
    let v = vec![Alg::Md5, Alg::Sha1, Alg::Sha256, Alg::Sha512];
    assert(v@ =~= default_algs_spec());
    v
}

/// Parses an algorithm name as the checksum-file reader does: the value
/// name or an alias, ignoring ASCII case.
pub fn alg_from_name(s: &str) -> (r: Option<Alg>)
    ensures
        r == alg_from_name_spec(s@),
{
    let chars = chars_of(s);
    let algs = all_algs();
    let mut i: usize = 0;
    while i < algs.len()
        invariant
            0 <= i <= 12,
            algs@ == all_algs_spec(),
            chars@ == s@,
            alg_from_name_spec(s@) == alg_from_name_from(s@, i as int),
        decreases 12 - i,
    {
        if algs[i].named_by(chars.as_slice()) {
            return Some(algs[i]);
        }
        i = i + 1;
    }
    None
}

/// Guesses the algorithm of a hexadecimal digest from its length: half its
/// length in bytes is taken as the digest size.
pub fn guess_alg(digest_str: &str) -> (r: Option<Alg>)
    ensures
        r == default_for_size(((digest_str.spec_bytes().len() as usize) / 2) as int),
{
    let a = match digest_str.len() / 2 {
        16 => Alg::Md5,
        20 => Alg::Sha1,
        28 => Alg::Sha224,
        32 => Alg::Sha256,
        48 => Alg::Sha384,
        64 => Alg::Sha512,
        _ => return None,
    };
    Some(a)
}

proof fn lemma_differ_at(x: Seq<char>, y: Seq<char>, i: int)
    requires
        0 <= i < x.len(),
        ascii_lower(x[i]) != ascii_lower(y[i]),
    ensures
        !ascii_eq_ignore_case(x, y),
{
}

#[verifier::rlimit(60)]
proof fn lemma_names_read_back_md5()
    ensures
        alg_from_name_spec(Alg::Md5.value_name()) == Some(Alg::Md5),
        alg_from_name_spec(Alg::Md5.display_name()) == Some(Alg::Md5),
{
    reveal_strlit("MD5");
    reveal_strlit("md5");
    assert(ascii_eq_ignore_case(Alg::Md5.aliases()[0], Alg::Md5.display_name()));
    assert(ascii_eq_ignore_case(Alg::Md5.value_name(), Alg::Md5.value_name()));
    reveal_with_fuel(alg_from_name_from, 2);
}

#[verifier::rlimit(60)]
proof fn lemma_names_read_back_sha1()
    ensures
        alg_from_name_spec(Alg::Sha1.value_name()) == Some(Alg::Sha1),
        alg_from_name_spec(Alg::Sha1.display_name()) == Some(Alg::Sha1),
{
    reveal_strlit("MD5");
    reveal_strlit("SHA1");
    reveal_strlit("md5");
    reveal_strlit("sha1");
    assert(ascii_eq_ignore_case(Alg::Sha1.aliases()[0], Alg::Sha1.display_name()));
    assert(ascii_eq_ignore_case(Alg::Sha1.value_name(), Alg::Sha1.value_name()));
    reveal_with_fuel(alg_from_name_from, 3);
}

#[verifier::rlimit(60)]
proof fn lemma_names_read_back_sha224()
    ensures
        alg_from_name_spec(Alg::Sha224.value_name()) == Some(Alg::Sha224),
        alg_from_name_spec(Alg::Sha224.display_name()) == Some(Alg::Sha224),
{
    reveal_strlit("MD5");
    reveal_strlit("SHA1");
    reveal_strlit("SHA224");
    reveal_strlit("md5");
    reveal_strlit("sha1");
    reveal_strlit("sha224");
    assert(ascii_eq_ignore_case(Alg::Sha224.aliases()[2], Alg::Sha224.display_name()));
    assert(ascii_eq_ignore_case(Alg::Sha224.value_name(), Alg::Sha224.value_name()));
    reveal_with_fuel(alg_from_name_from, 4);
}

#[verifier::rlimit(60)]
proof fn lemma_names_read_back_sha256()
    ensures
        alg_from_name_spec(Alg::Sha256.value_name()) == Some(Alg::Sha256),
        alg_from_name_spec(Alg::Sha256.display_name()) == Some(Alg::Sha256),
{
    reveal_strlit("MD5");
    reveal_strlit("SHA1");
    reveal_strlit("SHA2-224");
    reveal_strlit("SHA224");
    reveal_strlit("SHA256");
    reveal_strlit("md5");
    reveal_strlit("sha1");
    reveal_strlit("sha2-224");
    reveal_strlit("sha224");
    reveal_strlit("sha256");
    lemma_differ_at("sha224"@, "sha256"@, 4);
    lemma_differ_at("SHA224"@, "sha256"@, 4);
    lemma_differ_at("sha224"@, "SHA256"@, 4);
    lemma_differ_at("SHA224"@, "SHA256"@, 4);
    assert(ascii_eq_ignore_case(Alg::Sha256.aliases()[2], Alg::Sha256.display_name()));
    assert(ascii_eq_ignore_case(Alg::Sha256.value_name(), Alg::Sha256.value_name()));
    reveal_with_fuel(alg_from_name_from, 5);
}

#[verifier::rlimit(60)]
proof fn lemma_names_read_back_sha384()
    ensures
        alg_from_name_spec(Alg::Sha384.value_name()) == Some(Alg::Sha384),
        alg_from_name_spec(Alg::Sha384.display_name()) == Some(Alg::Sha384),
{
    reveal_strlit("MD5");
    reveal_strlit("SHA1");
    reveal_strlit("SHA2-224");
    reveal_strlit("SHA2-256");
    reveal_strlit("SHA224");
    reveal_strlit("SHA256");
    reveal_strlit("SHA384");
    reveal_strlit("md5");
    reveal_strlit("sha1");
    reveal_strlit("sha2-224");
    reveal_strlit("sha2-256");
    reveal_strlit("sha224");
    reveal_strlit("sha256");
    reveal_strlit("sha384");
    lemma_differ_at("sha224"@, "sha384"@, 3);
    lemma_differ_at("SHA224"@, "sha384"@, 3);
    lemma_differ_at("sha256"@, "sha384"@, 3);
    lemma_differ_at("SHA256"@, "sha384"@, 3);
    lemma_differ_at("sha224"@, "SHA384"@, 3);
    lemma_differ_at("SHA224"@, "SHA384"@, 3);
    lemma_differ_at("sha256"@, "SHA384"@, 3);
    lemma_differ_at("SHA256"@, "SHA384"@, 3);
    assert(ascii_eq_ignore_case(Alg::Sha384.aliases()[2], Alg::Sha384.display_name()));
    assert(ascii_eq_ignore_case(Alg::Sha384.value_name(), Alg::Sha384.value_name()));
    reveal_with_fuel(alg_from_name_from, 6);
}

#[verifier::rlimit(60)]
proof fn lemma_names_read_back_sha512()
    ensures
        alg_from_name_spec(Alg::Sha512.value_name()) == Some(Alg::Sha512),
        alg_from_name_spec(Alg::Sha512.display_name()) == Some(Alg::Sha512),
{
    reveal_strlit("MD5");
    reveal_strlit("SHA1");
    reveal_strlit("SHA2-224");
    reveal_strlit("SHA2-256");
    reveal_strlit("SHA2-384");
    reveal_strlit("SHA224");
    reveal_strlit("SHA256");
    reveal_strlit("SHA384");
    reveal_strlit("SHA512");
    reveal_strlit("md5");
    reveal_strlit("sha1");
    reveal_strlit("sha2-224");
    reveal_strlit("sha2-256");
    reveal_strlit("sha2-384");
    reveal_strlit("sha224");
    reveal_strlit("sha256");
    reveal_strlit("sha384");
    reveal_strlit("sha512");
    lemma_differ_at("sha224"@, "sha512"@, 3);
    lemma_differ_at("SHA224"@, "sha512"@, 3);
    lemma_differ_at("sha256"@, "sha512"@, 3);
    lemma_differ_at("SHA256"@, "sha512"@, 3);
    lemma_differ_at("sha384"@, "sha512"@, 3);
    lemma_differ_at("SHA384"@, "sha512"@, 3);
    lemma_differ_at("sha224"@, "SHA512"@, 3);
    lemma_differ_at("SHA224"@, "SHA512"@, 3);
    lemma_differ_at("sha256"@, "SHA512"@, 3);
    lemma_differ_at("SHA256"@, "SHA512"@, 3);
    lemma_differ_at("sha384"@, "SHA512"@, 3);
    lemma_differ_at("SHA384"@, "SHA512"@, 3);
    assert(ascii_eq_ignore_case(Alg::Sha512.aliases()[2], Alg::Sha512.display_name()));
    assert(ascii_eq_ignore_case(Alg::Sha512.value_name(), Alg::Sha512.value_name()));
    reveal_with_fuel(alg_from_name_from, 7);
}

#[verifier::rlimit(60)]
proof fn lemma_names_read_back_sha512_224()
    ensures
        alg_from_name_spec(Alg::Sha512_224.value_name()) == Some(Alg::Sha512_224),
        alg_from_name_spec(Alg::Sha512_224.display_name()) == Some(Alg::Sha512_224),
{
    reveal_strlit("MD5");
    reveal_strlit("SHA1");
    reveal_strlit("SHA2-224");
    reveal_strlit("SHA2-256");
    reveal_strlit("SHA2-384");
    reveal_strlit("SHA2-512");
    reveal_strlit("SHA224");
    reveal_strlit("SHA256");
    reveal_strlit("SHA384");
    reveal_strlit("SHA512");
    reveal_strlit("SHA512-224");
    reveal_strlit("md5");
    reveal_strlit("sha1");
    reveal_strlit("sha2-224");
    reveal_strlit("sha2-256");
    reveal_strlit("sha2-384");
    reveal_strlit("sha2-512");
    reveal_strlit("sha224");
    reveal_strlit("sha256");
    reveal_strlit("sha384");
    reveal_strlit("sha512");
    reveal_strlit("sha512-224");
    assert(ascii_eq_ignore_case(Alg::Sha512_224.aliases()[0], Alg::Sha512_224.display_name()));
    assert(ascii_eq_ignore_case(Alg::Sha512_224.value_name(), Alg::Sha512_224.value_name()));
    reveal_with_fuel(alg_from_name_from, 8);
}

#[verifier::rlimit(60)]
proof fn lemma_names_read_back_sha512_256()
    ensures
        alg_from_name_spec(Alg::Sha512_256.value_name()) == Some(Alg::Sha512_256),
        alg_from_name_spec(Alg::Sha512_256.display_name()) == Some(Alg::Sha512_256),
{
    reveal_strlit("MD5");
    reveal_strlit("SHA1");
    reveal_strlit("SHA2-224");
    reveal_strlit("SHA2-256");
    reveal_strlit("SHA2-384");
    reveal_strlit("SHA2-512");
    reveal_strlit("SHA224");
    reveal_strlit("SHA256");
    reveal_strlit("SHA384");
    reveal_strlit("SHA512");
    reveal_strlit("SHA512-224");
    reveal_strlit("SHA512-256");
    reveal_strlit("md5");
    reveal_strlit("sha1");
    reveal_strlit("sha2-224");
    reveal_strlit("sha2-256");
    reveal_strlit("sha2-384");
    reveal_strlit("sha2-512");
    reveal_strlit("sha224");
    reveal_strlit("sha256");
    reveal_strlit("sha384");
    reveal_strlit("sha512");
    reveal_strlit("sha512-224");
    reveal_strlit("sha512-256");
    lemma_differ_at("sha512-224"@, "sha512-256"@, 8);
    lemma_differ_at("SHA512-224"@, "sha512-256"@, 8);
    lemma_differ_at("sha512-224"@, "SHA512-256"@, 8);
    lemma_differ_at("SHA512-224"@, "SHA512-256"@, 8);
    assert(ascii_eq_ignore_case(Alg::Sha512_256.aliases()[0], Alg::Sha512_256.display_name()));
    assert(ascii_eq_ignore_case(Alg::Sha512_256.value_name(), Alg::Sha512_256.value_name()));
    reveal_with_fuel(alg_from_name_from, 9);
}

#[verifier::rlimit(60)]
proof fn lemma_names_read_back_sha3_224()
    ensures
        alg_from_name_spec(Alg::Sha3_224.value_name()) == Some(Alg::Sha3_224),
        alg_from_name_spec(Alg::Sha3_224.display_name()) == Some(Alg::Sha3_224),
{
    reveal_strlit("MD5");
    reveal_strlit("SHA1");
    reveal_strlit("SHA2-224");
    reveal_strlit("SHA2-256");
    reveal_strlit("SHA2-384");
    reveal_strlit("SHA2-512");
    reveal_strlit("SHA224");
    reveal_strlit("SHA256");
    reveal_strlit("SHA3-224");
    reveal_strlit("SHA384");
    reveal_strlit("SHA512");
    reveal_strlit("SHA512-224");
    reveal_strlit("SHA512-256");
    reveal_strlit("md5");
    reveal_strlit("sha1");
    reveal_strlit("sha2-224");
    reveal_strlit("sha2-256");
    reveal_strlit("sha2-384");
    reveal_strlit("sha2-512");
    reveal_strlit("sha224");
    reveal_strlit("sha256");
    reveal_strlit("sha3-224");
    reveal_strlit("sha384");
    reveal_strlit("sha512");
    reveal_strlit("sha512-224");
    reveal_strlit("sha512-256");
    lemma_differ_at("SHA2-224"@, "sha3-224"@, 3);
    lemma_differ_at("sha2-224"@, "sha3-224"@, 3);
    lemma_differ_at("SHA2-256"@, "sha3-224"@, 3);
    lemma_differ_at("sha2-256"@, "sha3-224"@, 3);
    lemma_differ_at("SHA2-384"@, "sha3-224"@, 3);
    lemma_differ_at("sha2-384"@, "sha3-224"@, 3);
    lemma_differ_at("SHA2-512"@, "sha3-224"@, 3);
    lemma_differ_at("sha2-512"@, "sha3-224"@, 3);
    lemma_differ_at("SHA2-224"@, "SHA3-224"@, 3);
    lemma_differ_at("sha2-224"@, "SHA3-224"@, 3);
    lemma_differ_at("SHA2-256"@, "SHA3-224"@, 3);
    lemma_differ_at("sha2-256"@, "SHA3-224"@, 3);
    lemma_differ_at("SHA2-384"@, "SHA3-224"@, 3);
    lemma_differ_at("sha2-384"@, "SHA3-224"@, 3);
    lemma_differ_at("SHA2-512"@, "SHA3-224"@, 3);
    lemma_differ_at("sha2-512"@, "SHA3-224"@, 3);
    assert(ascii_eq_ignore_case(Alg::Sha3_224.aliases()[0], Alg::Sha3_224.display_name()));
    assert(ascii_eq_ignore_case(Alg::Sha3_224.value_name(), Alg::Sha3_224.value_name()));
    reveal_with_fuel(alg_from_name_from, 10);
}

#[verifier::rlimit(60)]
proof fn lemma_names_read_back_sha3_256()
    ensures
        alg_from_name_spec(Alg::Sha3_256.value_name()) == Some(Alg::Sha3_256),
        alg_from_name_spec(Alg::Sha3_256.display_name()) == Some(Alg::Sha3_256),
{
    reveal_strlit("MD5");
    reveal_strlit("SHA1");
    reveal_strlit("SHA2-224");
    reveal_strlit("SHA2-256");
    reveal_strlit("SHA2-384");
    reveal_strlit("SHA2-512");
    reveal_strlit("SHA224");
    reveal_strlit("SHA256");
    reveal_strlit("SHA3-224");
    reveal_strlit("SHA3-256");
    reveal_strlit("SHA384");
    reveal_strlit("SHA512");
    reveal_strlit("SHA512-224");
    reveal_strlit("SHA512-256");
    reveal_strlit("md5");
    reveal_strlit("sha1");
    reveal_strlit("sha2-224");
    reveal_strlit("sha2-256");
    reveal_strlit("sha2-384");
    reveal_strlit("sha2-512");
    reveal_strlit("sha224");
    reveal_strlit("sha256");
    reveal_strlit("sha3-224");
    reveal_strlit("sha3-256");
    reveal_strlit("sha384");
    reveal_strlit("sha512");
    reveal_strlit("sha512-224");
    reveal_strlit("sha512-256");
    lemma_differ_at("SHA2-224"@, "sha3-256"@, 3);
    lemma_differ_at("sha2-224"@, "sha3-256"@, 3);
    lemma_differ_at("SHA2-256"@, "sha3-256"@, 3);
    lemma_differ_at("sha2-256"@, "sha3-256"@, 3);
    lemma_differ_at("SHA2-384"@, "sha3-256"@, 3);
    lemma_differ_at("sha2-384"@, "sha3-256"@, 3);
    lemma_differ_at("SHA2-512"@, "sha3-256"@, 3);
    lemma_differ_at("sha2-512"@, "sha3-256"@, 3);
    lemma_differ_at("sha3-224"@, "sha3-256"@, 6);
    lemma_differ_at("SHA3-224"@, "sha3-256"@, 6);
    lemma_differ_at("SHA2-224"@, "SHA3-256"@, 3);
    lemma_differ_at("sha2-224"@, "SHA3-256"@, 3);
    lemma_differ_at("SHA2-256"@, "SHA3-256"@, 3);
    lemma_differ_at("sha2-256"@, "SHA3-256"@, 3);
    lemma_differ_at("SHA2-384"@, "SHA3-256"@, 3);
    lemma_differ_at("sha2-384"@, "SHA3-256"@, 3);
    lemma_differ_at("SHA2-512"@, "SHA3-256"@, 3);
    lemma_differ_at("sha2-512"@, "SHA3-256"@, 3);
    lemma_differ_at("sha3-224"@, "SHA3-256"@, 6);
    lemma_differ_at("SHA3-224"@, "SHA3-256"@, 6);
    assert(ascii_eq_ignore_case(Alg::Sha3_256.aliases()[0], Alg::Sha3_256.display_name()));
    assert(ascii_eq_ignore_case(Alg::Sha3_256.value_name(), Alg::Sha3_256.value_name()));
    reveal_with_fuel(alg_from_name_from, 11);
}

#[verifier::rlimit(60)]
proof fn lemma_names_read_back_sha3_384()
    ensures
        alg_from_name_spec(Alg::Sha3_384.value_name()) == Some(Alg::Sha3_384),
        alg_from_name_spec(Alg::Sha3_384.display_name()) == Some(Alg::Sha3_384),
{
    reveal_strlit("MD5");
    reveal_strlit("SHA1");
    reveal_strlit("SHA2-224");
    reveal_strlit("SHA2-256");
    reveal_strlit("SHA2-384");
    reveal_strlit("SHA2-512");
    reveal_strlit("SHA224");
    reveal_strlit("SHA256");
    reveal_strlit("SHA3-224");
    reveal_strlit("SHA3-256");
    reveal_strlit("SHA3-384");
    reveal_strlit("SHA384");
    reveal_strlit("SHA512");
    reveal_strlit("SHA512-224");
    reveal_strlit("SHA512-256");
    reveal_strlit("md5");
    reveal_strlit("sha1");
    reveal_strlit("sha2-224");
    reveal_strlit("sha2-256");
    reveal_strlit("sha2-384");
    reveal_strlit("sha2-512");
    reveal_strlit("sha224");
    reveal_strlit("sha256");
    reveal_strlit("sha3-224");
    reveal_strlit("sha3-256");
    reveal_strlit("sha3-384");
    reveal_strlit("sha384");
    reveal_strlit("sha512");
    reveal_strlit("sha512-224");
    reveal_strlit("sha512-256");
    lemma_differ_at("SHA2-224"@, "sha3-384"@, 3);
    lemma_differ_at("sha2-224"@, "sha3-384"@, 3);
    lemma_differ_at("SHA2-256"@, "sha3-384"@, 3);
    lemma_differ_at("sha2-256"@, "sha3-384"@, 3);
    lemma_differ_at("SHA2-384"@, "sha3-384"@, 3);
    lemma_differ_at("sha2-384"@, "sha3-384"@, 3);
    lemma_differ_at("SHA2-512"@, "sha3-384"@, 3);
    lemma_differ_at("sha2-512"@, "sha3-384"@, 3);
    lemma_differ_at("sha3-224"@, "sha3-384"@, 5);
    lemma_differ_at("SHA3-224"@, "sha3-384"@, 5);
    lemma_differ_at("sha3-256"@, "sha3-384"@, 5);
    lemma_differ_at("SHA3-256"@, "sha3-384"@, 5);
    lemma_differ_at("SHA2-224"@, "SHA3-384"@, 3);
    lemma_differ_at("sha2-224"@, "SHA3-384"@, 3);
    lemma_differ_at("SHA2-256"@, "SHA3-384"@, 3);
    lemma_differ_at("sha2-256"@, "SHA3-384"@, 3);
    lemma_differ_at("SHA2-384"@, "SHA3-384"@, 3);
    lemma_differ_at("sha2-384"@, "SHA3-384"@, 3);
    lemma_differ_at("SHA2-512"@, "SHA3-384"@, 3);
    lemma_differ_at("sha2-512"@, "SHA3-384"@, 3);
    lemma_differ_at("sha3-224"@, "SHA3-384"@, 5);
    lemma_differ_at("SHA3-224"@, "SHA3-384"@, 5);
    lemma_differ_at("sha3-256"@, "SHA3-384"@, 5);
    lemma_differ_at("SHA3-256"@, "SHA3-384"@, 5);
    assert(ascii_eq_ignore_case(Alg::Sha3_384.aliases()[0], Alg::Sha3_384.display_name()));
    assert(ascii_eq_ignore_case(Alg::Sha3_384.value_name(), Alg::Sha3_384.value_name()));
    reveal_with_fuel(alg_from_name_from, 12);
}

#[verifier::rlimit(60)]
proof fn lemma_names_read_back_sha3_512()
    ensures
        alg_from_name_spec(Alg::Sha3_512.value_name()) == Some(Alg::Sha3_512),
        alg_from_name_spec(Alg::Sha3_512.display_name()) == Some(Alg::Sha3_512),
{
    reveal_strlit("MD5");
    reveal_strlit("SHA1");
    reveal_strlit("SHA2-224");
    reveal_strlit("SHA2-256");
    reveal_strlit("SHA2-384");
    reveal_strlit("SHA2-512");
    reveal_strlit("SHA224");
    reveal_strlit("SHA256");
    reveal_strlit("SHA3-224");
    reveal_strlit("SHA3-256");
    reveal_strlit("SHA3-384");
    reveal_strlit("SHA3-512");
    reveal_strlit("SHA384");
    reveal_strlit("SHA512");
    reveal_strlit("SHA512-224");
    reveal_strlit("SHA512-256");
    reveal_strlit("md5");
    reveal_strlit("sha1");
    reveal_strlit("sha2-224");
    reveal_strlit("sha2-256");
    reveal_strlit("sha2-384");
    reveal_strlit("sha2-512");
    reveal_strlit("sha224");
    reveal_strlit("sha256");
    reveal_strlit("sha3-224");
    reveal_strlit("sha3-256");
    reveal_strlit("sha3-384");
    reveal_strlit("sha3-512");
    reveal_strlit("sha384");
    reveal_strlit("sha512");
    reveal_strlit("sha512-224");
    reveal_strlit("sha512-256");
    lemma_differ_at("SHA2-224"@, "sha3-512"@, 3);
    lemma_differ_at("sha2-224"@, "sha3-512"@, 3);
    lemma_differ_at("SHA2-256"@, "sha3-512"@, 3);
    lemma_differ_at("sha2-256"@, "sha3-512"@, 3);
    lemma_differ_at("SHA2-384"@, "sha3-512"@, 3);
    lemma_differ_at("sha2-384"@, "sha3-512"@, 3);
    lemma_differ_at("SHA2-512"@, "sha3-512"@, 3);
    lemma_differ_at("sha2-512"@, "sha3-512"@, 3);
    lemma_differ_at("sha3-224"@, "sha3-512"@, 5);
    lemma_differ_at("SHA3-224"@, "sha3-512"@, 5);
    lemma_differ_at("sha3-256"@, "sha3-512"@, 5);
    lemma_differ_at("SHA3-256"@, "sha3-512"@, 5);
    lemma_differ_at("sha3-384"@, "sha3-512"@, 5);
    lemma_differ_at("SHA3-384"@, "sha3-512"@, 5);
    lemma_differ_at("SHA2-224"@, "SHA3-512"@, 3);
    lemma_differ_at("sha2-224"@, "SHA3-512"@, 3);
    lemma_differ_at("SHA2-256"@, "SHA3-512"@, 3);
    lemma_differ_at("sha2-256"@, "SHA3-512"@, 3);
    lemma_differ_at("SHA2-384"@, "SHA3-512"@, 3);
    lemma_differ_at("sha2-384"@, "SHA3-512"@, 3);
    lemma_differ_at("SHA2-512"@, "SHA3-512"@, 3);
    lemma_differ_at("sha2-512"@, "SHA3-512"@, 3);
    lemma_differ_at("sha3-224"@, "SHA3-512"@, 5);
    lemma_differ_at("SHA3-224"@, "SHA3-512"@, 5);
    lemma_differ_at("sha3-256"@, "SHA3-512"@, 5);
    lemma_differ_at("SHA3-256"@, "SHA3-512"@, 5);
    lemma_differ_at("sha3-384"@, "SHA3-512"@, 5);
    lemma_differ_at("SHA3-384"@, "SHA3-512"@, 5);
    assert(ascii_eq_ignore_case(Alg::Sha3_512.aliases()[0], Alg::Sha3_512.display_name()));
    assert(ascii_eq_ignore_case(Alg::Sha3_512.value_name(), Alg::Sha3_512.value_name()));
    reveal_with_fuel(alg_from_name_from, 13);
}

/// The name under which the output lists an algorithm, and its display
/// name, both read back as that algorithm.
pub proof fn names_read_back(a: Alg)
    ensures
        alg_from_name_spec(a.value_name()) == Some(a),
        alg_from_name_spec(a.display_name()) == Some(a),
{
    match a {
        Alg::Md5 => lemma_names_read_back_md5(),
        Alg::Sha1 => lemma_names_read_back_sha1(),
        Alg::Sha224 => lemma_names_read_back_sha224(),
        Alg::Sha256 => lemma_names_read_back_sha256(),
        Alg::Sha384 => lemma_names_read_back_sha384(),
        Alg::Sha512 => lemma_names_read_back_sha512(),
        Alg::Sha512_224 => lemma_names_read_back_sha512_224(),
        Alg::Sha512_256 => lemma_names_read_back_sha512_256(),
        Alg::Sha3_224 => lemma_names_read_back_sha3_224(),
        Alg::Sha3_256 => lemma_names_read_back_sha3_256(),
        Alg::Sha3_384 => lemma_names_read_back_sha3_384(),
        Alg::Sha3_512 => lemma_names_read_back_sha3_512(),
    }
}

/// An algorithm's listed name is a non-empty run of printable ASCII
/// characters other than the space.
pub proof fn lemma_value_name_plain(a: Alg)
    ensures
        a.value_name().len() > 0,
        forall|i: int|
            0 <= i < a.value_name().len() ==> 0x21 <= (#[trigger] a.value_name()[i] as u32) < 0x7f,
{
    reveal_strlit("md5");
    reveal_strlit("sha1");
    reveal_strlit("sha224");
    reveal_strlit("sha256");
    reveal_strlit("sha384");
    reveal_strlit("sha512");
    reveal_strlit("sha512-224");
    reveal_strlit("sha512-256");
    reveal_strlit("sha3-224");
    reveal_strlit("sha3-256");
    reveal_strlit("sha3-384");
    reveal_strlit("sha3-512");
}

/// Every digest size has an algorithm that is guessed for it, of that
/// size; the algorithms used by default, and SHA-224 and SHA-384, are
/// guessed for their own digests.
pub proof fn guess_fits_digest_size(a: Alg)
    ensures
        default_for_size(a.digest_len() as int) matches Some(b) && b.digest_len() == a.digest_len(),
        (a is Md5 || a is Sha1 || a is Sha224 || a is Sha256 || a is Sha384 || a is Sha512)
            ==> default_for_size(a.digest_len() as int) == Some(a),
{
}

} // verus!
