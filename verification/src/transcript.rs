//! The Fiat-Shamir transcript of the verifier.
//!
//! The transcript keeps a buffer of everything absorbed since the last
//! challenge. A challenge is the Keccak-256 digest of that buffer, reduced
//! into the scalar field; the digest then becomes the buffer, so that
//! challenges chain. Values are absorbed most significant byte first, the
//! convention of the Ethereum verifier, although the field holds them the
//! other way round. Whatever is read from the proof is absorbed at once, so
//! every challenge depends on all that came before it.

use crate::bn256::curve::{g1_point_valid, G1Affine, G1Point};
use crate::bn256::field::{fr_modulus, Fq, Fr};
use crate::encoding::{
    append32, be_bytes, be_value, chunk32, lemma_be_bytes_len, lemma_be_bytes_of_be_value,
    lemma_be_value_is_le_of_reverse, lemma_be_value_of_be_bytes, lemma_pow256_32, reverse32,
};
use crate::error::Error;
use crate::loader::{NearLoadedFr, NearLoadedG1, NearLoader};
use vstd::prelude::*;

verus! {

/// Bytes of a Keccak-256 digest.
pub const DIGEST_BYTES: usize = 32;

/// The Keccak-256 digest of `data`, as the NEAR host computes it.
pub uninterp spec fn keccak256(data: Seq<u8>) -> Seq<u8>;

/// Calls `near_sdk::env::keccak256_array`, and names the digest. The host
/// aborts when the call's gas runs out.
#[verifier::external_body]
pub fn near_keccak256(data: &Vec<u8>) -> (digest: [u8; 32])
    ensures
        digest@ == keccak256(data@),
{
    near_sdk::env::keccak256_array(data)
}

/// What a transcript holds: the part of the proof not yet read, and the
/// buffer of what was absorbed since the last challenge.
pub struct TranscriptState {
    pub stream: Seq<u8>,
    pub buf: Seq<u8>,
}

/// Why a read from the proof gave no value.
pub enum ReadFailure {
    /// The proof ended before the value did.
    Exhausted,
    /// The bytes encode no value of the kind asked for.
    Malformed,
    /// The bytes encode the identity, which has no coordinates to absorb.
    Unabsorbable,
}

/// What is hashed for a challenge: the buffer, followed by one byte of value
/// one exactly when the buffer is as long as a digest.
pub open spec fn hash_input(buf: Seq<u8>) -> Seq<u8> {
    if buf.len() == 32 {
        buf.push(1u8)
    } else {
        buf
    }
}

/// The buffer after a challenge was drawn from `buf`: the digest.
pub open spec fn squeezed(buf: Seq<u8>) -> Seq<u8> {
    keccak256(hash_input(buf))
}

/// The challenge drawn from `buf`: the digest, read as a number with its most
/// significant byte first, reduced into the scalar field.
pub open spec fn challenge(buf: Seq<u8>) -> nat {
    be_value(squeezed(buf)) % fr_modulus()
}

/// The buffer after a scalar was absorbed.
pub open spec fn scalar_absorbed(buf: Seq<u8>, scalar: nat) -> Seq<u8> {
    buf + be_bytes(scalar, 32)
}

/// The buffer after a point was absorbed: `x`, then `y`.
pub open spec fn point_absorbed(buf: Seq<u8>, point: G1Point) -> Seq<u8> {
    buf + be_bytes(point.x, 32) + be_bytes(point.y, 32)
}

/// Whether a point can be absorbed: the identity has no coordinates.
pub open spec fn absorbable(point: G1Point) -> bool {
    !(point.x == 0 && point.y == 0)
}

/// The state after a challenge was drawn.
pub open spec fn challenge_drawn(pre: TranscriptState) -> TranscriptState {
    TranscriptState { stream: pre.stream, buf: squeezed(pre.buf) }
}

/// Reading a scalar: the state it leaves, and the scalar or the reason why
/// there is none. The next 32 bytes are consumed if the proof has them, and
/// absorbed if they spell a number below the scalar modulus.
pub open spec fn scalar_read(pre: TranscriptState) -> (TranscriptState, Result<nat, ReadFailure>) {
    if pre.stream.len() < 32 {
        (pre, Err(ReadFailure::Exhausted))
    } else {
        let value = be_value(pre.stream.subrange(0, 32));
        let rest = pre.stream.skip(32);
        if value < fr_modulus() {
            (TranscriptState { stream: rest, buf: scalar_absorbed(pre.buf, value) }, Ok(value))
        } else {
            (TranscriptState { stream: rest, buf: pre.buf }, Err(ReadFailure::Malformed))
        }
    }
}

/// Reading a point: the state it leaves, and the point or the reason why
/// there is none. The coordinates are consumed one after the other, 32 bytes
/// each, as far as the proof has them; they are absorbed if they are the
/// coordinates of a point other than the identity.
pub open spec fn point_read(pre: TranscriptState) -> (TranscriptState, Result<
    G1Point,
    ReadFailure,
>) {
    if pre.stream.len() < 32 {
        (pre, Err(ReadFailure::Exhausted))
    } else if pre.stream.len() < 64 {
        (
            TranscriptState { stream: pre.stream.skip(32), buf: pre.buf },
            Err(ReadFailure::Exhausted),
        )
    } else {
        let point = G1Point {
            x: be_value(pre.stream.subrange(0, 32)),
            y: be_value(pre.stream.subrange(32, 64)),
        };
        let rest = pre.stream.skip(64);
        if !g1_point_valid(point.x, point.y) {
            (TranscriptState { stream: rest, buf: pre.buf }, Err(ReadFailure::Malformed))
        } else if !absorbable(point) {
            (TranscriptState { stream: rest, buf: pre.buf }, Err(ReadFailure::Unabsorbable))
        } else {
            (TranscriptState { stream: rest, buf: point_absorbed(pre.buf, point) }, Ok(point))
        }
    }
}

/// One step of a transcript that absorbs values and draws challenges.
pub enum Step {
    /// A scalar is absorbed.
    Scalar(nat),
    /// A point is absorbed.
    Point(G1Point),
    /// A challenge is drawn.
    Challenge,
}

/// The buffer after one step. The identity is not absorbed.
pub open spec fn buffer_after(buf: Seq<u8>, step: Step) -> Seq<u8> {
    match step {
        Step::Scalar(scalar) => scalar_absorbed(buf, scalar),
        Step::Point(point) => if absorbable(point) {
            point_absorbed(buf, point)
        } else {
            buf
        },
        Step::Challenge => squeezed(buf),
    }
}

/// The challenges that a run of steps draws, in the order in which it draws
/// them, when it starts from the buffer `buf`.
pub open spec fn challenges_of(buf: Seq<u8>, steps: Seq<Step>) -> Seq<nat>
    decreases steps.len(),
{
    if steps.len() == 0 {
        Seq::empty()
    } else {
        let rest = challenges_of(buffer_after(buf, steps[0]), steps.drop_first());
        if steps[0] is Challenge {
            seq![challenge(buf)] + rest
        } else {
            rest
        }
    }
}

/// The buffer that a run of steps ends with when it starts from `buf`.
pub open spec fn buffer_after_all(buf: Seq<u8>, steps: Seq<Step>) -> Seq<u8>
    decreases steps.len(),
{
    if steps.len() == 0 {
        buf
    } else {
        buffer_after_all(buffer_after(buf, steps[0]), steps.drop_first())
    }
}

/// Whether `e` is the error that reports the failure `f`, where
/// `malformed` is the text for bytes that encode no value.
pub open spec fn reports(e: Error, f: ReadFailure, malformed: Seq<char>) -> bool {
    match f {
        ReadFailure::Exhausted => e.is_transcript_error("failed to fill whole buffer"@),
        ReadFailure::Malformed => e.is_decode_error(malformed),
        ReadFailure::Unabsorbable => e.is_transcript_error("Invalid elliptic curve point"@),
    }
}

/// What is hashed for a challenge from the buffer `buf`.
pub fn squeeze_input(buf: &Vec<u8>) -> (data: Vec<u8>)
    ensures
        data@ == hash_input(buf@),
{
    let mut data = buf.clone();
    assert(data@ =~= buf@);
    if buf.len() == DIGEST_BYTES {
        data.push(1);
    }
    data
}

/// The transcript of one verification: the proof being read, and the buffer
/// that the next challenge will be drawn from.
#[derive(Debug)]
pub struct NearTranscript {
    stream: Vec<u8>,
    position: usize,
    buf: Vec<u8>,
}

impl View for NearTranscript {
    type V = TranscriptState;

    /// The unread part of the proof, and the buffer.
    closed spec fn view(&self) -> TranscriptState {
        TranscriptState {
            stream: if self.position <= self.stream@.len() {
                self.stream@.skip(self.position as int)
            } else {
                Seq::empty()
            },
            buf: self.buf@,
        }
    }
}

impl NearTranscript {
    /// A transcript that has absorbed nothing and will read `stream`.
    pub fn new(stream: Vec<u8>) -> (r: NearTranscript)
        ensures
            r@ == (TranscriptState { stream: stream@, buf: Seq::empty() }),
    {
        assert(stream@.skip(0) =~= stream@);
        NearTranscript { stream, position: 0, buf: Vec::new() }
    }

    /// The loader whose values the transcript hands out.
    pub fn loader(&self) -> NearLoader {
        NearLoader
    }

    /// The number of bytes of the proof not yet read.
    pub fn remaining(&self) -> (n: usize)
        ensures
            n == self@.stream.len(),
    {
        if self.position <= self.stream.len() {
            self.stream.len() - self.position
        } else {
            0
        }
    }

    /// A copy of the buffer that the next challenge will be drawn from.
    pub fn buffer(&self) -> (r: Vec<u8>)
        ensures
            r@ == self@.buf,
    {
        let r = self.buf.clone();
        assert(r@ =~= self.buf@);
        r
    }

    /// Draws a challenge: hashes the buffer, keeps the digest as the new
    /// buffer, and returns the digest reduced into the scalar field.
    pub fn squeeze_challenge(&mut self) -> (r: NearLoadedFr)
        ensures
            final(self)@ == challenge_drawn(old(self)@),
            final(self)@.buf.len() == 32,
            r@ == challenge(old(self)@.buf),
    {
        let data = squeeze_input(&self.buf);
        let hash: [u8; 32] = near_keccak256(&data);
        let mut buf: Vec<u8> = Vec::new();
        append32(&mut buf, &hash);
        self.buf = buf;
        assert(self.buf@ =~= hash@);
        NearLoadedFr(Fr::from_be_bytes_reduced(&hash))
    }

    /// Absorbs a point: its two coordinates, `x` then `y`, each most
    /// significant byte first. Fails with a transcript error on the
    /// identity, which has no coordinates, and then absorbs nothing.
    pub fn common_ec_point(&mut self, ec_point: &NearLoadedG1) -> (r: Result<(), Error>)
        ensures
            r is Ok <==> absorbable(ec_point@),
            r matches Err(e) ==> reports(e, ReadFailure::Unabsorbable, Seq::empty()),
            final(self)@.stream == old(self)@.stream,
            final(self)@.buf == if absorbable(ec_point@) {
                point_absorbed(old(self)@.buf, ec_point@)
            } else {
                old(self)@.buf
            },
    {
        if ec_point.0.is_identity() {
            return Err(Error::transcript("Invalid elliptic curve point"));
        }
        append32(&mut self.buf, &reverse32(&ec_point.0.x().to_bytes()));
        append32(&mut self.buf, &reverse32(&ec_point.0.y().to_bytes()));
        Ok(())
    }

    /// Absorbs a scalar, most significant byte first. Never fails.
    pub fn common_scalar(&mut self, scalar: &NearLoadedFr) -> (r: Result<(), Error>)
        ensures
            r is Ok,
            final(self)@.stream == old(self)@.stream,
            final(self)@.buf == scalar_absorbed(old(self)@.buf, scalar@),
    {
        append32(&mut self.buf, &reverse32(&scalar.0.to_bytes()));
        Ok(())
    }

    /// Takes the next 32 bytes of the proof, if it has them.
    fn read_chunk(&mut self) -> (r: Option<[u8; 32]>)
        ensures
            r is Some <==> old(self)@.stream.len() >= 32,
            final(self)@.buf == old(self)@.buf,
            match r {
                Some(chunk) => chunk@ == old(self)@.stream.subrange(0, 32) && final(self)@.stream
                    == old(self)@.stream.skip(32),
                None => final(self)@.stream == old(self)@.stream,
            },
    {
        if self.position > self.stream.len() || self.stream.len() - self.position < 32 {
            return None;
        }
        let chunk = chunk32(&self.stream, self.position);
        self.position = self.position + 32;
        assert(chunk@ =~= old(self)@.stream.subrange(0, 32));
        assert(self@.stream =~= old(self)@.stream.skip(32));
        Some(chunk)
    }

    /// Reads a scalar from the proof: the next 32 bytes, most significant
    /// first. Fails with a transcript error where the proof is too short and
    /// with a decode error where the number is not below the scalar modulus;
    /// a scalar that was read is absorbed before it is returned.
    pub fn read_scalar(&mut self) -> (r: Result<NearLoadedFr, Error>)
        ensures
            final(self)@ == scalar_read(old(self)@).0,
            match r {
                Ok(scalar) => scalar_read(old(self)@).1 == Ok::<nat, ReadFailure>(scalar@),
                Err(e) => scalar_read(old(self)@).1 matches Err(f) && reports(
                    e,
                    f,
                    "Invalid scalar encoding in proof"@,
                ),
            },
    {
        let mut data = match self.read_chunk() {
            Some(chunk) => chunk,
            None => {
                return Err(Error::transcript("failed to fill whole buffer"));
            },
        };
        proof {
            lemma_be_value_is_le_of_reverse(data@);
        }
        data = reverse32(&data);
        let scalar = match Fr::from_bytes(&data) {
            Some(scalar) => scalar,
            None => {
                return Err(Error::decode("Invalid scalar encoding in proof"));
            },
        };
        let s = NearLoadedFr(scalar);
        match self.common_scalar(&s) {
            Ok(_) => Ok(s),
            Err(e) => Err(e),
        }
    }

    /// Reads a point from the proof: 32 bytes for `x`, then 32 for `y`, each
    /// most significant byte first. Fails with a transcript error where the
    /// proof is too short, with a decode error where a coordinate is not
    /// reduced or the pair is no point, and with a transcript error on the
    /// identity; a point that was read is absorbed before it is returned.
    pub fn read_ec_point(&mut self) -> (r: Result<NearLoadedG1, Error>)
        ensures
            final(self)@ == point_read(old(self)@).0,
            match r {
                Ok(point) => point_read(old(self)@).1 == Ok::<G1Point, ReadFailure>(point@),
                Err(e) => point_read(old(self)@).1 matches Err(f) && reports(
                    e,
                    f,
                    "Invalid elliptic curve point encoding in proof"@,
                ),
            },
    {
        let mut x = match self.read_chunk() {
            Some(chunk) => chunk,
            None => {
                return Err(Error::transcript("failed to fill whole buffer"));
            },
        };
        let mut y = match self.read_chunk() {
            Some(chunk) => chunk,
            None => {
                return Err(Error::transcript("failed to fill whole buffer"));
            },
        };
        proof {
            assert(y@ =~= old(self)@.stream.subrange(32, 64));
            assert(self@.stream =~= old(self)@.stream.skip(64));
            lemma_be_value_is_le_of_reverse(x@);
            lemma_be_value_is_le_of_reverse(y@);
        }
        x = reverse32(&x);
        y = reverse32(&y);
        let ec_point = match (Fq::from_bytes(&x), Fq::from_bytes(&y)) {
            (Some(x), Some(y)) => match G1Affine::from_xy(x, y) {
                Some(p) => NearLoadedG1(p),
                None => {
                    return Err(Error::decode("Invalid elliptic curve point encoding in proof"));
                },
            },
            _ => {
                return Err(Error::decode("Invalid elliptic curve point encoding in proof"));
            },
        };
        match self.common_ec_point(&ec_point) {
            Ok(_) => Ok(ec_point),
            Err(e) => Err(e),
        }
    }
}

/// What is absorbed after a scalar was read is what was read: writing the
/// number back, most significant byte first, gives the 32 bytes of the
/// proof.
pub proof fn law_read_scalar_absorbs_what_it_read(pre: TranscriptState)
    requires
        scalar_read(pre).1 is Ok,
    ensures
        scalar_read(pre).0.buf == pre.buf + pre.stream.subrange(0, 32),
{
    lemma_be_bytes_of_be_value(pre.stream.subrange(0, 32));
}

/// What is absorbed after a point was read is what was read: the 64 bytes
/// of the proof.
pub proof fn law_read_point_absorbs_what_it_read(pre: TranscriptState)
    requires
        point_read(pre).1 is Ok,
    ensures
        point_read(pre).0.buf == pre.buf + pre.stream.subrange(0, 64),
{
    let x = pre.stream.subrange(0, 32);
    let y = pre.stream.subrange(32, 64);
    lemma_be_bytes_of_be_value(x);
    lemma_be_bytes_of_be_value(y);
    assert(pre.buf + x + y =~= pre.buf + pre.stream.subrange(0, 64));
}

/// A scalar written most significant byte first is read back as itself.
pub proof fn law_scalar_encoding_round_trip(scalar: nat, buf: Seq<u8>, rest: Seq<u8>)
    requires
        scalar < fr_modulus(),
    ensures
        scalar_read(TranscriptState { stream: be_bytes(scalar, 32) + rest, buf }) == (
            TranscriptState { stream: rest, buf: scalar_absorbed(buf, scalar) },
            Ok::<nat, ReadFailure>(scalar),
        ),
{
    let stream = be_bytes(scalar, 32) + rest;
    lemma_pow256_32();
    lemma_be_value_of_be_bytes(scalar, 32);
    lemma_be_bytes_len(scalar, 32);
    assert(stream.subrange(0, 32) =~= be_bytes(scalar, 32));
    assert(stream.skip(32) =~= rest);
}

/// A point other than the identity, written as its coordinates most
/// significant byte first, is read back as itself.
pub proof fn law_point_encoding_round_trip(point: G1Point, buf: Seq<u8>, rest: Seq<u8>)
    requires
        g1_point_valid(point.x, point.y),
        absorbable(point),
    ensures
        point_read(
            TranscriptState { stream: be_bytes(point.x, 32) + be_bytes(point.y, 32) + rest, buf },
        ) == (
            TranscriptState { stream: rest, buf: point_absorbed(buf, point) },
            Ok::<G1Point, ReadFailure>(point),
        ),
{
    let stream = be_bytes(point.x, 32) + be_bytes(point.y, 32) + rest;
    lemma_pow256_32();
    lemma_be_value_of_be_bytes(point.x, 32);
    lemma_be_value_of_be_bytes(point.y, 32);
    lemma_be_bytes_len(point.x, 32);
    lemma_be_bytes_len(point.y, 32);
    assert(stream.subrange(0, 32) =~= be_bytes(point.x, 32));
    assert(stream.subrange(32, 64) =~= be_bytes(point.y, 32));
    assert(stream.skip(64) =~= rest);
}

/// A challenge is drawn from the buffer alone: two transcripts with the same
/// buffer draw the same challenge and are left with the same buffer, whatever
/// either has yet to read.
pub proof fn law_challenge_depends_on_buffer_alone(a: TranscriptState, b: TranscriptState)
    requires
        a.buf == b.buf,
    ensures
        challenge(a.buf) == challenge(b.buf),
        challenge_drawn(a).buf == challenge_drawn(b).buf,
        challenge_drawn(a).stream == a.stream,
        challenge_drawn(b).stream == b.stream,
{
}

/// Two runs of the same steps draw the same challenges and end with the same
/// buffer, whatever proof either transcript was made to read.
pub proof fn law_same_steps_same_challenges(
    a: TranscriptState,
    b: TranscriptState,
    steps: Seq<Step>,
)
    requires
        a.buf == b.buf,
    ensures
        challenges_of(a.buf, steps) == challenges_of(b.buf, steps),
        buffer_after_all(a.buf, steps) == buffer_after_all(b.buf, steps),
{
}

/// A buffer as long as a digest is hashed with one more byte, of value one;
/// any other buffer is hashed as it is.
pub proof fn law_domain_separation(buf: Seq<u8>)
    ensures
        buf.len() == 32 ==> hash_input(buf).len() == 33 && hash_input(buf)[32] == 1
            && hash_input(buf).subrange(0, 32) == buf,
        buf.len() != 32 ==> hash_input(buf) == buf,
{
    if buf.len() == 32 {
        assert(hash_input(buf).subrange(0, 32) =~= buf);
    }
}

} // verus!
