use vstd::prelude::*;
use crypto::digest::Digest;
use crypto::sha1::Sha1;

verus! {

#[verifier::external_type_specification]
#[verifier::external_body]
pub struct ExSha1(Sha1);

/// Most bytes that one digest may take in: its bit count must fit in a `u64`.
pub const MAX_DIGEST_BYTES: u64 = 0x1fff_ffff_ffff_ffff;

pub open spec fn is_lower_hex_digit(c: char) -> bool {
    ('0' <= c && c <= '9') || ('a' <= c && c <= 'f')
}

/// The bytes that a SHA-1 state has taken in since it was made.
pub uninterp spec fn sha1_fed(h: Sha1) -> Seq<u8>;

/// The SHA-1 digest of `data`, as lowercase hex digits.
pub uninterp spec fn sha1_hex_of(data: Seq<u8>) -> Seq<char>;

/// Relies on crypto::sha1::Sha1::new: a fresh SHA-1 state, which has taken in nothing.
#[verifier::external_body]
fn sha1_new() -> (r: Sha1)
    ensures
        sha1_fed(r) == Seq::<u8>::empty(),
{
    Sha1::new()
}

/// Relies on Digest::input of crypto::sha1::Sha1: appends `data` to what the state has
/// taken in. It panics once the bit count of all input overflows a `u64`; a state whose
/// result was taken cannot reach it, as [`sha1_result_str`] consumes the state.
#[verifier::external_body]
fn sha1_input(h: &mut Sha1, data: &[u8])
    requires
        sha1_fed(*old(h)).len() + data@.len() <= MAX_DIGEST_BYTES,
    ensures
        sha1_fed(*final(h)) == sha1_fed(*old(h)) + data@,
{
    h.input(data)
}

/// Relies on Digest::result_str of crypto::sha1::Sha1: the digest of all input, as 40
/// lowercase hex digits.
#[verifier::external_body]
fn sha1_result_str(h: Sha1) -> (r: String)
    ensures
        r@ == sha1_hex_of(sha1_fed(h)),
        r@.len() == 40,
        forall|i: int| 0 <= i < r@.len() ==> is_lower_hex_digit(#[trigger] r@[i]),
{
    let mut h = h;
    h.result_str()
}

/// Why fetching an archive failed.
#[derive(Debug)]
pub enum FetchError {
    /// The request or a read of the response failed.
    Transport(String),
    /// The downloaded bytes do not have the digest that the manifest declares.
    ChecksumMismatch { expected: String, actual: String },
    /// The extraction step failed or could not be started.
    Unpack(String),
}

/// Compares a computed digest with the declared one, character for character.
pub fn verify_checksum(expected: &str, actual: String) -> (r: Result<(), FetchError>)
    ensures
        r is Ok <==> actual@ == expected@,
        match r {
            Ok(()) => true,
            Err(FetchError::ChecksumMismatch { expected: e, actual: a }) => e@ == expected@ && a@
                == actual@,
            Err(_) => false,
        },
{
    let wanted = expected.to_owned();
    if actual == wanted {
        Ok(())
    } else {
        Err(FetchError::ChecksumMismatch { expected: wanted, actual })
    }
}

/// Digests a byte stream chunk by chunk and decides, at its end, whether the stream
/// has the declared checksum.
pub struct ChecksumGate {
    hasher: Sha1,
    received: u64,
    expected: String,
}

impl ChecksumGate {
    /// The bytes taken in so far.
    pub closed spec fn spec_data(&self) -> Seq<u8> {
        sha1_fed(self.hasher)
    }

    /// The checksum that the stream must have.
    pub closed spec fn spec_expected(&self) -> Seq<char> {
        self.expected@
    }

    /// The byte count kept beside the digest agrees with it.
    pub closed spec fn wf(&self) -> bool {
        self.received as nat == sha1_fed(self.hasher).len()
    }

    pub fn new(expected: &str) -> (r: ChecksumGate)
        ensures
            r.wf(),
            r.spec_data() == Seq::<u8>::empty(),
            r.spec_expected() == expected@,
    {
        ChecksumGate { hasher: sha1_new(), received: 0, expected: expected.to_owned() }
    }

    /// How many bytes were taken in so far.
    pub fn received(&self) -> (r: u64)
        requires
            self.wf(),
        ensures
            r == self.spec_data().len(),
    {
        self.received
    }

    /// Takes in the next chunk of the stream.
    pub fn absorb(&mut self, chunk: &[u8])
        requires
            old(self).wf(),
            old(self).spec_data().len() + chunk@.len() <= MAX_DIGEST_BYTES,
        ensures
            final(self).wf(),
            final(self).spec_data() == old(self).spec_data() + chunk@,
            final(self).spec_expected() == old(self).spec_expected(),
    {
        sha1_input(&mut self.hasher, chunk);
        self.received = self.received + chunk.len() as u64;
    }

    /// Ends the stream: `Ok` exactly when the digest of the bytes taken in is the
    /// expected checksum, else the mismatch with both values. Only on `Ok` may the bytes
    /// be unpacked.
    pub fn finish(self) -> (r: Result<(), FetchError>)
        ensures
            r is Ok <==> sha1_hex_of(self.spec_data()) == self.spec_expected(),
            match r {
                Ok(()) => true,
                Err(FetchError::ChecksumMismatch { expected, actual }) => expected@
                    == self.spec_expected() && actual@ == sha1_hex_of(self.spec_data()),
                Err(_) => false,
            },
    {
        let actual = sha1_result_str(self.hasher);
        verify_checksum(self.expected.as_str(), actual)
    }
}

} // verus!
