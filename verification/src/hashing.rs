use vstd::prelude::*;

use digest::{Digest, DynDigest};

use crate::alg::Alg;

verus! {

/// The running state of one digest computation of the outside hash crates:
/// the boxed hasher that the `digest` crate's `DynDigest` interface drives.
///
/// Trusted: the struct is opaque to Verus. What it holds is described by two
/// names, [`absorbed`] (the bytes fed to it so far) and [`state_alg`] (the
/// algorithm it was made for), and the wrappers below are the only code that
/// touches the boxed hasher.
#[verifier::external_body]
pub struct DigestState {
    inner: Box<dyn DynDigest>,
}

/// The bytes fed to a digest state since it was made.
pub uninterp spec fn absorbed(state: DigestState) -> Seq<u8>;

/// The algorithm a digest state was made for.
pub uninterp spec fn state_alg(state: DigestState) -> Alg;

/// The MD5 digest of `data`, as the `md5` crate computes it.
pub uninterp spec fn md5_digest(data: Seq<u8>) -> Seq<u8>;

/// The SHA-1 digest of `data`, as the `sha1` crate computes it.
pub uninterp spec fn sha1_digest(data: Seq<u8>) -> Seq<u8>;

/// The SHA-224 digest of `data`, as the `sha2` crate computes it.
pub uninterp spec fn sha224_digest(data: Seq<u8>) -> Seq<u8>;

/// The SHA-256 digest of `data`, as the `sha2` crate computes it.
pub uninterp spec fn sha256_digest(data: Seq<u8>) -> Seq<u8>;

/// The SHA-384 digest of `data`, as the `sha2` crate computes it.
pub uninterp spec fn sha384_digest(data: Seq<u8>) -> Seq<u8>;

/// The SHA-512 digest of `data`, as the `sha2` crate computes it.
pub uninterp spec fn sha512_digest(data: Seq<u8>) -> Seq<u8>;

/// The SHA-512/224 digest of `data`, as the `sha2` crate computes it.
pub uninterp spec fn sha512_224_digest(data: Seq<u8>) -> Seq<u8>;

/// The SHA-512/256 digest of `data`, as the `sha2` crate computes it.
pub uninterp spec fn sha512_256_digest(data: Seq<u8>) -> Seq<u8>;

/// The SHA3-224 digest of `data`, as the `sha3` crate computes it.
pub uninterp spec fn sha3_224_digest(data: Seq<u8>) -> Seq<u8>;

/// The SHA3-256 digest of `data`, as the `sha3` crate computes it.
pub uninterp spec fn sha3_256_digest(data: Seq<u8>) -> Seq<u8>;

/// The SHA3-384 digest of `data`, as the `sha3` crate computes it.
pub uninterp spec fn sha3_384_digest(data: Seq<u8>) -> Seq<u8>;

/// The SHA3-512 digest of `data`, as the `sha3` crate computes it.
pub uninterp spec fn sha3_512_digest(data: Seq<u8>) -> Seq<u8>;

/// The digest of `data` under `alg`.
pub open spec fn digest_of(alg: Alg, data: Seq<u8>) -> Seq<u8> {
    match alg {
        Alg::Md5 => md5_digest(data),
        Alg::Sha1 => sha1_digest(data),
        Alg::Sha224 => sha224_digest(data),
        Alg::Sha256 => sha256_digest(data),
        Alg::Sha384 => sha384_digest(data),
        Alg::Sha512 => sha512_digest(data),
        Alg::Sha512_224 => sha512_224_digest(data),
        Alg::Sha512_256 => sha512_256_digest(data),
        Alg::Sha3_224 => sha3_224_digest(data),
        Alg::Sha3_256 => sha3_256_digest(data),
        Alg::Sha3_384 => sha3_384_digest(data),
        Alg::Sha3_512 => sha3_512_digest(data),
    }
}

/// A fresh MD5 state.
///
/// Trusted: calls `md5::Md5::new()` (the `Digest` constructor) and boxes it; the
/// contract says that nothing has been absorbed yet and which algorithm the
/// state computes.
#[verifier::external_body]
fn new_md5() -> (s: DigestState)
    ensures
        absorbed(s) == Seq::<u8>::empty(),
        state_alg(s) == Alg::Md5,
{
    DigestState { inner: Box::new(<md5::Md5 as Digest>::new()) }
}

/// A fresh SHA-1 state.
///
/// Trusted: calls `sha1::Sha1::new()` (the `Digest` constructor) and boxes it; the
/// contract says that nothing has been absorbed yet and which algorithm the
/// state computes.
#[verifier::external_body]
fn new_sha1() -> (s: DigestState)
    ensures
        absorbed(s) == Seq::<u8>::empty(),
        state_alg(s) == Alg::Sha1,
{
    DigestState { inner: Box::new(<sha1::Sha1 as Digest>::new()) }
}

/// A fresh SHA-224 state.
///
/// Trusted: calls `sha2::Sha224::new()` (the `Digest` constructor) and boxes it; the
/// contract says that nothing has been absorbed yet and which algorithm the
/// state computes.
#[verifier::external_body]
fn new_sha224() -> (s: DigestState)
    ensures
        absorbed(s) == Seq::<u8>::empty(),
        state_alg(s) == Alg::Sha224,
{
    DigestState { inner: Box::new(<sha2::Sha224 as Digest>::new()) }
}

/// A fresh SHA-256 state.
///
/// Trusted: calls `sha2::Sha256::new()` (the `Digest` constructor) and boxes it; the
/// contract says that nothing has been absorbed yet and which algorithm the
/// state computes.
#[verifier::external_body]
fn new_sha256() -> (s: DigestState)
    ensures
        absorbed(s) == Seq::<u8>::empty(),
        state_alg(s) == Alg::Sha256,
{
    DigestState { inner: Box::new(<sha2::Sha256 as Digest>::new()) }
}

/// A fresh SHA-384 state.
///
/// Trusted: calls `sha2::Sha384::new()` (the `Digest` constructor) and boxes it; the
/// contract says that nothing has been absorbed yet and which algorithm the
/// state computes.
#[verifier::external_body]
fn new_sha384() -> (s: DigestState)
    ensures
        absorbed(s) == Seq::<u8>::empty(),
        state_alg(s) == Alg::Sha384,
{
    DigestState { inner: Box::new(<sha2::Sha384 as Digest>::new()) }
}

/// A fresh SHA-512 state.
///
/// Trusted: calls `sha2::Sha512::new()` (the `Digest` constructor) and boxes it; the
/// contract says that nothing has been absorbed yet and which algorithm the
/// state computes.
#[verifier::external_body]
fn new_sha512() -> (s: DigestState)
    ensures
        absorbed(s) == Seq::<u8>::empty(),
        state_alg(s) == Alg::Sha512,
{
    DigestState { inner: Box::new(<sha2::Sha512 as Digest>::new()) }
}

/// A fresh SHA-512/224 state.
///
/// Trusted: calls `sha2::Sha512_224::new()` (the `Digest` constructor) and boxes it; the
/// contract says that nothing has been absorbed yet and which algorithm the
/// state computes.
#[verifier::external_body]
fn new_sha512_224() -> (s: DigestState)
    ensures
        absorbed(s) == Seq::<u8>::empty(),
        state_alg(s) == Alg::Sha512_224,
{
    DigestState { inner: Box::new(<sha2::Sha512_224 as Digest>::new()) }
}

/// A fresh SHA-512/256 state.
///
/// Trusted: calls `sha2::Sha512_256::new()` (the `Digest` constructor) and boxes it; the
/// contract says that nothing has been absorbed yet and which algorithm the
/// state computes.
#[verifier::external_body]
fn new_sha512_256() -> (s: DigestState)
    ensures
        absorbed(s) == Seq::<u8>::empty(),
        state_alg(s) == Alg::Sha512_256,
{
    DigestState { inner: Box::new(<sha2::Sha512_256 as Digest>::new()) }
}

/// A fresh SHA3-224 state.
///
/// Trusted: calls `sha3::Sha3_224::new()` (the `Digest` constructor) and boxes it; the
/// contract says that nothing has been absorbed yet and which algorithm the
/// state computes.
#[verifier::external_body]
fn new_sha3_224() -> (s: DigestState)
    ensures
        absorbed(s) == Seq::<u8>::empty(),
        state_alg(s) == Alg::Sha3_224,
{
    DigestState { inner: Box::new(<sha3::Sha3_224 as Digest>::new()) }
}

/// A fresh SHA3-256 state.
///
/// Trusted: calls `sha3::Sha3_256::new()` (the `Digest` constructor) and boxes it; the
/// contract says that nothing has been absorbed yet and which algorithm the
/// state computes.
#[verifier::external_body]
fn new_sha3_256() -> (s: DigestState)
    ensures
        absorbed(s) == Seq::<u8>::empty(),
        state_alg(s) == Alg::Sha3_256,
{
    DigestState { inner: Box::new(<sha3::Sha3_256 as Digest>::new()) }
}

/// A fresh SHA3-384 state.
///
/// Trusted: calls `sha3::Sha3_384::new()` (the `Digest` constructor) and boxes it; the
/// contract says that nothing has been absorbed yet and which algorithm the
/// state computes.
#[verifier::external_body]
fn new_sha3_384() -> (s: DigestState)
    ensures
        absorbed(s) == Seq::<u8>::empty(),
        state_alg(s) == Alg::Sha3_384,
{
    DigestState { inner: Box::new(<sha3::Sha3_384 as Digest>::new()) }
}

/// A fresh SHA3-512 state.
///
/// Trusted: calls `sha3::Sha3_512::new()` (the `Digest` constructor) and boxes it; the
/// contract says that nothing has been absorbed yet and which algorithm the
/// state computes.
#[verifier::external_body]
fn new_sha3_512() -> (s: DigestState)
    ensures
        absorbed(s) == Seq::<u8>::empty(),
        state_alg(s) == Alg::Sha3_512,
{
    DigestState { inner: Box::new(<sha3::Sha3_512 as Digest>::new()) }
}

/// Feeds `data` to a digest state.
///
/// Trusted: calls `DynDigest::update` on the boxed hasher, which digests
/// input data and can be called repeatedly for streaming messages; the
/// contract says that the absorbed bytes grow by `data` and the algorithm
/// stays.
#[verifier::external_body]
fn absorb(state: &mut DigestState, data: &[u8])
    ensures
        absorbed(*final(state)) == absorbed(*old(state)) + data@,
        state_alg(*final(state)) == state_alg(*old(state)),
{
    state.inner.update(data);
}

/// Finishes a digest state and gives its digest.
///
/// Trusted: calls `DynDigest::finalize` on the boxed hasher, which (in the
/// `digest` crate's blanket implementation) computes the hasher's fixed-size
/// output of everything absorbed and returns it as a boxed slice; the
/// contract names that digest per algorithm and states its length, the
/// output size of the algorithm.
#[verifier::external_body]
fn finish(state: DigestState) -> (d: Vec<u8>)
    ensures
        d@.len() == state_alg(state).digest_len(),
        state_alg(state) == Alg::Md5 ==> d@ == md5_digest(absorbed(state)),
        state_alg(state) == Alg::Sha1 ==> d@ == sha1_digest(absorbed(state)),
        state_alg(state) == Alg::Sha224 ==> d@ == sha224_digest(absorbed(state)),
        state_alg(state) == Alg::Sha256 ==> d@ == sha256_digest(absorbed(state)),
        state_alg(state) == Alg::Sha384 ==> d@ == sha384_digest(absorbed(state)),
        state_alg(state) == Alg::Sha512 ==> d@ == sha512_digest(absorbed(state)),
        state_alg(state) == Alg::Sha512_224 ==> d@ == sha512_224_digest(absorbed(state)),
        state_alg(state) == Alg::Sha512_256 ==> d@ == sha512_256_digest(absorbed(state)),
        state_alg(state) == Alg::Sha3_224 ==> d@ == sha3_224_digest(absorbed(state)),
        state_alg(state) == Alg::Sha3_256 ==> d@ == sha3_256_digest(absorbed(state)),
        state_alg(state) == Alg::Sha3_384 ==> d@ == sha3_384_digest(absorbed(state)),
        state_alg(state) == Alg::Sha3_512 ==> d@ == sha3_512_digest(absorbed(state)),
{
    state.inner.finalize().into_vec()
}

/// A fresh digest state for `a`.
pub fn hasher(a: Alg) -> (s: DigestState)
    ensures
        absorbed(s) == Seq::<u8>::empty(),
        state_alg(s) == a,
{
    match a {
        Alg::Md5 => new_md5(),
        Alg::Sha1 => new_sha1(),
        Alg::Sha224 => new_sha224(),
        Alg::Sha256 => new_sha256(),
        Alg::Sha384 => new_sha384(),
        Alg::Sha512 => new_sha512(),
        Alg::Sha512_224 => new_sha512_224(),
        Alg::Sha512_256 => new_sha512_256(),
        Alg::Sha3_224 => new_sha3_224(),
        Alg::Sha3_256 => new_sha3_256(),
        Alg::Sha3_384 => new_sha3_384(),
        Alg::Sha3_512 => new_sha3_512(),
    }
}

impl DigestState {
    /// Feeds `data` to the state.
    pub fn update(&mut self, data: &[u8])
        ensures
            absorbed(*final(self)) == absorbed(*old(self)) + data@,
            state_alg(*final(self)) == state_alg(*old(self)),
    {
        absorb(self, data);
    }

    /// The digest of everything fed to the state, under its algorithm.
    pub fn finalize(self) -> (d: Vec<u8>)
        ensures
            d@ == digest_of(state_alg(self), absorbed(self)),
            d@.len() == state_alg(self).digest_len(),
    {
        finish(self)
    }
}

/// Feeding a fresh digest state for `a` any number of chunks, one `update`
/// each, and finishing it gives the digest under `a` of their
/// concatenation; with no chunk at all, the digest of the empty input.
/// `ss[0]` is the fresh state and `ss[i + 1]` is `ss[i]` after
/// `update(chunks[i])`; `d` is what `finalize` gives for the last state.
pub proof fn updates_give_digest_of_concatenation(
    a: Alg,
    ss: Seq<DigestState>,
    chunks: Seq<Seq<u8>>,
    d: Seq<u8>,
)
    requires
        ss.len() == chunks.len() + 1,
        absorbed(ss[0]) == Seq::<u8>::empty(),
        state_alg(ss[0]) == a,
        forall|i: int|
            0 <= i < chunks.len() ==> absorbed(#[trigger] ss[i + 1]) == absorbed(ss[i]) + chunks[i]
                && state_alg(ss[i + 1]) == state_alg(ss[i]),
        d == digest_of(state_alg(ss.last()), absorbed(ss.last())),
    ensures
        absorbed(ss.last()) == chunks.flatten(),
        state_alg(ss.last()) == a,
        d == digest_of(a, chunks.flatten()),
    decreases chunks.len(),
{
    if chunks.len() == 0 {
        assert(chunks.flatten() =~= Seq::<u8>::empty());
    } else {
        let k = chunks.len() - 1;
        let ss0 = ss.drop_last();
        let c0 = chunks.drop_last();
        assert(ss0.last() == ss[k]);
        assert forall|i: int| 0 <= i < c0.len() implies absorbed(#[trigger] ss0[i + 1]) == absorbed(
            ss0[i],
        ) + c0[i] && state_alg(ss0[i + 1]) == state_alg(ss0[i]) by {
            assert(ss0[i + 1] == ss[i + 1]);
            assert(ss0[i] == ss[i]);
            assert(c0[i] == chunks[i]);
        }
        updates_give_digest_of_concatenation(
            a,
            ss0,
            c0,
            digest_of(state_alg(ss0.last()), absorbed(ss0.last())),
        );
        assert(chunks =~= c0.push(chunks[k]));
        c0.lemma_flatten_push(chunks[k]);
        assert(ss.last() == ss[k + 1]);
    }
}

/// Digest states for several algorithms fed the same data, as the tool
/// computes all requested digests of one input in a single pass.
pub struct MultiHasher {
    states: Vec<DigestState>,
    data: Ghost<Seq<u8>>,
}

impl MultiHasher {
    #[verifier::type_invariant]
    spec fn all_absorbed_data(self) -> bool {
        forall|i: int|
            0 <= i < self.states@.len() ==> absorbed(#[trigger] self.states@[i]) == self.data@
    }

    /// The algorithms, in the order of their digests.
    pub closed spec fn algs(&self) -> Seq<Alg> {
        self.states@.map_values(|s: DigestState| state_alg(s))
    }

    /// Everything fed so far.
    pub closed spec fn data(&self) -> Seq<u8> {
        self.data@
    }

    /// States for `algs`, with nothing fed yet.
    pub fn new(algs: &[Alg]) -> (h: Self)
        ensures
            h.algs() == algs@,
            h.data() == Seq::<u8>::empty(),
    {
        let mut states: Vec<DigestState> = Vec::new();
        let mut i: usize = 0;
        while i < algs.len()
            invariant
                0 <= i <= algs.len(),
                states@.len() == i,
                forall|j: int| 0 <= j < i ==> absorbed(#[trigger] states@[j]) == Seq::<u8>::empty(),
                states@.map_values(|s: DigestState| state_alg(s)) =~= algs@.take(i as int),
            decreases algs.len() - i,
        {
            states.push(hasher(algs[i]));
            i = i + 1;
            assert(states@.map_values(|s: DigestState| state_alg(s)) =~= algs@.take(i as int));
        }
        assert(algs@.take(i as int) =~= algs@);
        MultiHasher { states, data: Ghost(Seq::empty()) }
    }

    /// Feeds `chunk` to every state.
    pub fn update(&mut self, chunk: &[u8])
        ensures
            final(self).algs() == old(self).algs(),
            final(self).data() == old(self).data() + chunk@,
    {
        proof {
            use_type_invariant(&*self);
        }
        let ghost before = self.states@;
        let ghost new_data = self.data@ + chunk@;
        let mut rest: Vec<DigestState> = Vec::new();
        std::mem::swap(&mut rest, &mut self.states);
        self.data = Ghost(new_data);
        let mut fed: Vec<DigestState> = Vec::new();
        let n = rest.len();
        let mut i: usize = 0;
        while i < n
            invariant
                0 <= i <= n,
                n == before.len(),
                rest@ == before.skip(i as int),
                fed@.len() == i,
                forall|j: int| 0 <= j < i ==> absorbed(#[trigger] fed@[j]) == new_data,
                forall|j: int| 0 <= j < i ==> state_alg(#[trigger] fed@[j]) == state_alg(before[j]),
                forall|j: int| 0 <= j < before.len() ==> absorbed(#[trigger] before[j]) + chunk@ == new_data,
            decreases n - i,
        {
            let mut s = rest.remove(0);
            assert(s == before[i as int]);
            absorb(&mut s, chunk);
            fed.push(s);
            assert(rest@ =~= before.skip(i + 1));
            i = i + 1;
        }
        self.states = fed;
        assert(self.states@.map_values(|s: DigestState| state_alg(s)) =~= before.map_values(
            |s: DigestState| state_alg(s),
        ));
    }

    /// Finishes every state and gives the digests, in the order of the
    /// algorithms.
    pub fn finalize(self) -> (r: Vec<Vec<u8>>)
        ensures
            r@.len() == self.algs().len(),
            forall|i: int| 0 <= i < r@.len() ==> #[trigger] r@[i]@ == digest_of(self.algs()[i], self.data()),
            forall|i: int| 0 <= i < r@.len() ==> (#[trigger] r@[i])@.len() == self.algs()[i].digest_len(),
    {
        proof {
            use_type_invariant(&self);
        }
        let ghost before = self.states@;
        let ghost data = self.data@;
        let MultiHasher { states, data: _ } = self;
        let mut rest = states;
        let mut out: Vec<Vec<u8>> = Vec::new();
        let n = rest.len();
        let mut i: usize = 0;
        while i < n
            invariant
                0 <= i <= n,
                n == before.len(),
                rest@ == before.skip(i as int),
                out@.len() == i,
                forall|j: int| 0 <= j < before.len() ==> absorbed(#[trigger] before[j]) == data,
                forall|j: int| 0 <= j < i ==> #[trigger] out@[j]@ == digest_of(state_alg(before[j]), data),
                forall|j: int| 0 <= j < i ==> (#[trigger] out@[j])@.len() == state_alg(before[j]).digest_len(),
            decreases n - i,
        {
            let s = rest.remove(0);
            assert(s == before[i as int]);
            let d = finish(s);
            out.push(d);
            assert(rest@ =~= before.skip(i + 1));
            i = i + 1;
        }
        out
    }
}

/// The digests of `data` under each algorithm of `alg`, in order.
pub fn hash(alg: &[Alg], data: &[u8]) -> (r: Vec<Vec<u8>>)
    ensures
        r@.len() == alg@.len(),
        forall|i: int| 0 <= i < r@.len() ==> #[trigger] r@[i]@ == digest_of(alg@[i], data@),
        forall|i: int| 0 <= i < r@.len() ==> (#[trigger] r@[i])@.len() == alg@[i].digest_len(),
{
    let mut h = MultiHasher::new(alg);
    h.update(data);
    assert(h.data() =~= data@);
    h.finalize()
}

/// Feeding a digest pass any number of chunks, one update each, gives the
/// digests of their concatenation: `hs[0]` is a fresh pass and `hs[i + 1]`
/// is `hs[i]` after `update(chunks[i])`.
pub proof fn chunks_give_digest_of_concatenation(hs: Seq<MultiHasher>, chunks: Seq<Seq<u8>>, r: Seq<Seq<u8>>)
    requires
        hs.len() == chunks.len() + 1,
        hs[0].data() == Seq::<u8>::empty(),
        forall|i: int|
            0 <= i < chunks.len() ==> (#[trigger] hs[i + 1]).algs() == hs[i].algs()
                && hs[i + 1].data() == hs[i].data() + chunks[i],
        r.len() == hs.last().algs().len(),
        forall|i: int| 0 <= i < r.len() ==> #[trigger] r[i] == digest_of(hs.last().algs()[i], hs.last().data()),
    ensures
        hs.last().data() == chunks.flatten(),
        hs.last().algs() == hs[0].algs(),
        forall|i: int| 0 <= i < r.len() ==> #[trigger] r[i] == digest_of(hs[0].algs()[i], chunks.flatten()),
    decreases chunks.len(),
{
    if chunks.len() == 0 {
        assert(chunks.flatten() =~= Seq::<u8>::empty());
    } else {
        let k = chunks.len() - 1;
        let hs0 = hs.drop_last();
        let c0 = chunks.drop_last();
        assert(hs0.last() == hs[k]);
        assert forall|i: int| 0 <= i < c0.len() implies (#[trigger] hs0[i + 1]).algs() == hs0[i].algs()
            && hs0[i + 1].data() == hs0[i].data() + c0[i] by {
            assert(hs0[i + 1] == hs[i + 1]);
            assert(hs0[i] == hs[i]);
            assert(c0[i] == chunks[i]);
        }
        let r0 = Seq::new(hs0.last().algs().len(), |i: int| digest_of(hs0.last().algs()[i], hs0.last().data()));
        chunks_give_digest_of_concatenation(hs0, c0, r0);
        assert(chunks =~= c0.push(chunks[k]));
        c0.lemma_flatten_push(chunks[k]);
        assert(hs.last() == hs[k + 1]);
    }
}

/// A fresh digest pass, finished without any data, gives the digests of
/// the empty input.
pub proof fn fresh_pass_gives_digest_of_empty(h: MultiHasher, r: Seq<Seq<u8>>)
    requires
        h.data() == Seq::<u8>::empty(),
        r.len() == h.algs().len(),
        forall|i: int| 0 <= i < r.len() ==> #[trigger] r[i] == digest_of(h.algs()[i], h.data()),
    ensures
        forall|i: int| 0 <= i < r.len() ==> #[trigger] r[i] == digest_of(h.algs()[i], Seq::<u8>::empty()),
{
}

} // verus!
