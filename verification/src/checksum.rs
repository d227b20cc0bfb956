//! The SHA-256 checksum of a download, fed chunk by chunk as it streams in,
//! its lower-case hex form, and its check against the expected digest.

use vstd::prelude::*;
use crate::error::{Error, ErrorView};
use crate::text::{ascii_ci_eq, eq_ignore_ascii_case};

verus! {

/// A running SHA-256 computation of `sha2`. Verus cannot declare
/// `sha2::Sha256` itself (it is an alias over generic wrappers whose
/// parameters are typenum numbers), so the state is held here, opaque.
#[verifier::external_body]
pub struct Sha256State {
    inner: sha2::Sha256,
}

/// The bytes fed to a SHA-256 state so far.
pub uninterp spec fn fed(h: Sha256State) -> Seq<u8>;

/// The SHA-256 digest of some bytes.
pub uninterp spec fn spec_sha256(data: Seq<u8>) -> Seq<u8>;

/// `<Sha256 as Digest>::new`: a state that has been fed nothing.
#[verifier::external_body]
fn sha256_new() -> (r: Sha256State)
    ensures
        fed(r) == Seq::<u8>::empty(),
{
    Sha256State { inner: <sha2::Sha256 as sha2::Digest>::new() }
}

/// `<Sha256 as Digest>::update`: feeds `data` after what was fed before.
#[verifier::external_body]
fn sha256_update(h: &mut Sha256State, data: &[u8])
    ensures
        fed(*final(h)) == fed(*old(h)) + data@,
{
    sha2::Digest::update(&mut h.inner, data);
}

/// `<Sha256 as Digest>::finalize`: the 32-byte digest of everything fed.
#[verifier::external_body]
fn sha256_finalize(h: Sha256State) -> (r: Vec<u8>)
    ensures
        r@ == spec_sha256(fed(h)),
        r@.len() == 32,
{
    sha2::Digest::finalize(h.inner).to_vec()
}

/// The lower-case hex digit of a value below 16.
pub open spec fn hex_digit(n: u8) -> char {
    if n < 10 {
        (('0' as u8) + n) as char
    } else {
        (('a' as u8) + n - 10) as char
    }
}

/// Each byte as two lower-case hex digits, high nibble first.
pub open spec fn spec_hex(data: Seq<u8>) -> Seq<char>
    decreases data.len(),
{
    if data.len() == 0 {
        Seq::empty()
    } else {
        spec_hex(data.drop_last()) + seq![hex_digit(data.last() / 16), hex_digit(data.last() % 16)]
    }
}

/// `hex::encode`: each byte as two lower-case hex digits.
#[verifier::external_body]
fn hex_encode(data: &[u8]) -> (r: String)
    ensures
        r@ == spec_hex(data@),
{
    hex::encode(data)
}

/// The checksum of a download in progress: the SHA-256 state and the
/// number of bytes written so far.
pub struct Checksum {
    state: Sha256State,
    written: u64,
}

impl Checksum {
    #[verifier::type_invariant]
    spec fn counts_fed(self) -> bool {
        self.written == fed(self.state).len()
    }

    /// The bytes fed so far.
    pub closed spec fn data(self) -> Seq<u8> {
        fed(self.state)
    }

    /// A checksum of nothing.
    pub fn new() -> (r: Self)
        ensures
            r.data() == Seq::<u8>::empty(),
    {
        Checksum { state: sha256_new(), written: 0 }
    }

    /// The number of bytes fed so far.
    pub fn written(&self) -> (r: u64)
        ensures
            r == self.data().len(),
    {
        proof { use_type_invariant(self); }
        self.written
    }

    /// Feeds the next chunk of the download.
    pub fn feed(&mut self, chunk: &[u8])
        requires
            old(self).data().len() + chunk@.len() <= u64::MAX,
        ensures
            final(self).data() == old(self).data() + chunk@,
    {
        proof { use_type_invariant(&*self); }
        let n: u64 = chunk.len() as u64;
        let mut current = Checksum::new();
        std::mem::swap(&mut current, self);
        proof { use_type_invariant(&current); }
        let Checksum { mut state, written } = current;
        sha256_update(&mut state, chunk);
        *self = Checksum { state, written: written + n };
    }

    /// The digest of everything fed, as lower-case hex, and how many bytes that was.
    pub fn finish(self) -> (r: (String, u64))
        ensures
            r.0@ == spec_hex(spec_sha256(self.data())),
            r.1 == self.data().len(),
    {
        proof { use_type_invariant(&self); }
        let n = self.written;
        let digest = sha256_finalize(self.state);
        (hex_encode(digest.as_slice()), n)
    }
}

/// The message a download whose digest differs from the expected one fails with.
pub open spec fn mismatch_message(file_name: Seq<char>, expected: Seq<char>, digest: Seq<char>) -> Seq<char> {
    "sha256 mismatch for "@ + file_name + ": expected "@ + expected + ", got "@ + digest
}

impl Checksum {
    /// Verifies a download's hex digest against the expected one, when one is
    /// known; hex digits compare without regard to case.
    pub fn matches(digest: &str, expected: Option<&str>, file_name: &str) -> (r: Result<(), Error>)
        ensures
            match expected {
                None => r is Ok,
                Some(e) => if ascii_ci_eq(e@, digest@) {
                    r is Ok
                } else {
                    r matches Err(err) && err@ == ErrorView::Other(mismatch_message(file_name@, e@, digest@))
                },
            },
    {
        match expected {
            None => Ok(()),
            Some(e) => {
                if eq_ignore_ascii_case(e, digest) {
                    Ok(())
                } else {
                    let mut m = String::from_str("sha256 mismatch for ");
                    m.append(file_name);
                    m.append(": expected ");
                    m.append(e);
                    m.append(", got ");
                    m.append(digest);
                    Err(Error::Other(m))
                }
            },
        }
    }
}

} // verus!
