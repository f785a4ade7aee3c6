//! Checksum engine: a 128-bit MD5 digest of a byte stream fed in bounded
//! chunks.
use vstd::prelude::*;

verus! {

/// Size of the buffer a file is read through; bounds the memory one digest
/// needs whatever the file's size.
pub const CHUNK_LEN: usize = 512;

/// Bound on the number of bytes one digest may cover (the hashing context
/// counts its input in bits in a `u64`).
pub const MAX_DIGEST_INPUT: u64 = 1152921504606846976;

#[verifier::external_type_specification]
#[verifier::external_body]
pub struct ExMd5Context(md5_rs::Context);

/// The bytes that an MD5 context has absorbed so far.
pub uninterp spec fn md5_absorbed(ctx: md5_rs::Context) -> Seq<u8>;

/// The digest md5-rs computes for a byte sequence, as a big-endian 128-bit
/// integer. It is MD5 on little-endian targets: md5-rs writes the message
/// length in native byte order.
pub uninterp spec fn md5_of(data: Seq<u8>) -> u128;

/// Relies on md5_rs::Context::new: a fresh context has absorbed nothing.
#[verifier::external_body]
fn md5_context_new() -> (r: md5_rs::Context)
    ensures
        md5_absorbed(r) == Seq::<u8>::empty(),
{
    md5_rs::Context::new()
}

/// Relies on md5_rs::Context::read: the bytes of `buf` are appended to what
/// the context has absorbed. Its byte count is a `u64` that `finish`
/// multiplies by eight, hence the bound.
#[verifier::external_body]
fn md5_context_read(ctx: &mut md5_rs::Context, buf: &[u8])
    requires
        md5_absorbed(*old(ctx)).len() + buf@.len() <= MAX_DIGEST_INPUT,
    ensures
        md5_absorbed(*final(ctx)) == md5_absorbed(*old(ctx)) + buf@,
{
    ctx.read(buf)
}

/// Relies on md5_rs::Context::finish: the MD5 digest of the absorbed bytes,
/// whose sixteen bytes are read here as a big-endian `u128`.
#[verifier::external_body]
fn md5_context_finish(ctx: md5_rs::Context) -> (r: u128)
    requires
        md5_absorbed(ctx).len() <= MAX_DIGEST_INPUT,
    ensures
        r == md5_of(md5_absorbed(ctx)),
{
    u128::from_be_bytes(ctx.finish())
}

/// Streaming digest of one file's content. The caller reads the file in
/// chunks of at most `CHUNK_LEN` bytes, hands each to `absorb`, stops when
/// `absorb` says the stream has ended (an empty read), and then calls
/// `finish`. The digest covers every byte fed, however the reads split it.
pub struct Digester {
    ctx: md5_rs::Context,
    consumed: Ghost<Seq<u8>>,
}

impl View for Digester {
    type V = Seq<u8>;

    /// The bytes fed so far.
    closed spec fn view(&self) -> Seq<u8> {
        self.consumed@
    }
}

impl Digester {
    pub closed spec fn wf(&self) -> bool {
        &&& md5_absorbed(self.ctx) == self.consumed@
        &&& self.consumed@.len() <= MAX_DIGEST_INPUT
    }

    pub fn new() -> (r: Digester)
        ensures
            r.wf(),
            r@ == Seq::<u8>::empty(),
    {
        Digester { ctx: md5_context_new(), consumed: Ghost(Seq::empty()) }
    }

    /// Feeds one chunk read from the stream. Returns whether more chunks
    /// must be read: only an empty chunk marks the end of the stream.
    pub fn absorb(&mut self, chunk: &[u8]) -> (more: bool)
        requires
            old(self).wf(),
            old(self)@.len() + chunk@.len() <= MAX_DIGEST_INPUT,
        ensures
            final(self).wf(),
            final(self)@ == old(self)@ + chunk@,
            more == (chunk@.len() > 0),
    {
        md5_context_read(&mut self.ctx, chunk);
        self.consumed = Ghost(self.consumed@ + chunk@);
        chunk.len() > 0
    }

    /// The digest of everything fed.
    pub fn finish(self) -> (r: u128)
        requires
            self.wf(),
        ensures
            r == md5_of(self@),
    {
        md5_context_finish(self.ctx)
    }
}

} // verus!
