//! The streaming XOR cipher: two independent lanes (encrypt and decrypt),
//! each an 8-byte rolling key and a 3-bit rolling offset, derived from a
//! 4-byte seed chosen by the server.
//!
//! Per byte on the encrypt lane: the output is the plain byte XOR the key
//! byte at the offset; the plain byte is stored back into that key slot; the
//! offset is XORed with the plain byte's low three bits. The decrypt lane
//! recovers the plain byte first and performs the same update, which keeps
//! the two sides in step. This is an obfuscation, not a cryptographic
//! primitive; the byte-level behaviour is preserved exactly for
//! interoperability.

use vstd::prelude::*;

use crate::error::ProtocolError;

verus! {

/// Which side of the connection this cipher serves.
#[derive(Debug, Copy, Clone, PartialEq, Eq, Structural)]
pub enum CipherMode {
    Server,
    Client,
}

/// The mathematical state of one cipher lane: the 8-byte rolling key and the
/// rolling offset.
pub struct LaneModel {
    pub key: Seq<u8>,
    pub off: u8,
}

/// A lane is well formed when its key has 8 bytes and its offset stays below
/// 8.
pub open spec fn lane_wf(l: LaneModel) -> bool {
    l.key.len() == 8 && l.off < 8
}

/// One encryption step: the ciphered byte and the next lane state.
pub open spec fn enc_byte(l: LaneModel, p: u8) -> (LaneModel, u8)
    recommends
        lane_wf(l),
{
    let c = p ^ l.key[l.off as int];
    (LaneModel { key: l.key.update(l.off as int, p), off: l.off ^ (p & 7) }, c)
}

/// One decryption step: the recovered plain byte and the next lane state.
/// The key slot takes the recovered plain byte, mirroring the encrypt side.
pub open spec fn dec_byte(l: LaneModel, c: u8) -> (LaneModel, u8)
    recommends
        lane_wf(l),
{
    let p = c ^ l.key[l.off as int];
    (LaneModel { key: l.key.update(l.off as int, p), off: l.off ^ (p & 7) }, p)
}

/// Encrypting a whole byte sequence, front to back.
pub open spec fn enc_seq(l: LaneModel, s: Seq<u8>) -> (LaneModel, Seq<u8>)
    decreases s.len(),
{
    if s.len() == 0 {
        (l, Seq::<u8>::empty())
    } else {
        let (l1, c) = enc_byte(l, s[0]);
        let (l2, cs) = enc_seq(l1, s.drop_first());
        (l2, cs.insert(0, c))
    }
}

/// Decrypting a whole byte sequence, front to back.
pub open spec fn dec_seq(l: LaneModel, s: Seq<u8>) -> (LaneModel, Seq<u8>)
    decreases s.len(),
{
    if s.len() == 0 {
        (l, Seq::<u8>::empty())
    } else {
        let (l1, p) = dec_byte(l, s[0]);
        let (l2, ps) = dec_seq(l1, s.drop_first());
        (l2, ps.insert(0, p))
    }
}

/// A step keeps a lane well formed.
pub proof fn lemma_enc_byte_wf(l: LaneModel, p: u8)
    requires
        lane_wf(l),
    ensures
        lane_wf(enc_byte(l, p).0),
{
    let off = l.off;
    assert(off < 8 ==> (off ^ (p & 7)) < 8) by (bit_vector);
}

/// Encrypting keeps a lane well formed and the length of the data.
pub proof fn lemma_enc_seq_wf(l: LaneModel, s: Seq<u8>)
    requires
        lane_wf(l),
    ensures
        lane_wf(enc_seq(l, s).0),
        enc_seq(l, s).1.len() == s.len(),
    decreases s.len(),
{
    if s.len() > 0 {
        lemma_enc_byte_wf(l, s[0]);
        lemma_enc_seq_wf(enc_byte(l, s[0]).0, s.drop_first());
    }
}

/// Decrypting one byte inverts encrypting it and leaves both lanes in the
/// same state: both sides store the plain byte and shift by its low bits.
pub proof fn lemma_byte_roundtrip(l: LaneModel, p: u8)
    requires
        lane_wf(l),
    ensures
        dec_byte(l, enc_byte(l, p).1) == (enc_byte(l, p).0, p),
{
    let k = l.key[l.off as int];
    assert((p ^ k) ^ k == p) by (bit_vector);
}

/// Round trip of the cipher: a sequence encrypted on one lane decrypts on an
/// equal lane to the original bytes, and both lanes advance to the same
/// state.
pub proof fn lemma_cipher_roundtrip(l: LaneModel, s: Seq<u8>)
    requires
        lane_wf(l),
    ensures
        dec_seq(l, enc_seq(l, s).1) == (enc_seq(l, s).0, s),
    decreases s.len(),
{
    if s.len() == 0 {
        assert(dec_seq(l, enc_seq(l, s).1).1 =~= s);
    } else {
        let (l1, c) = enc_byte(l, s[0]);
        lemma_byte_roundtrip(l, s[0]);
        lemma_enc_byte_wf(l, s[0]);
        lemma_cipher_roundtrip(l1, s.drop_first());
        let cs = enc_seq(l1, s.drop_first()).1;
        assert(cs.insert(0, c).len() == cs.len() + 1);
        assert(cs.insert(0, c)[0] == c);
        assert(cs.insert(0, c).drop_first() =~= cs);
        assert(dec_seq(l, enc_seq(l, s).1).1 =~= s);
    }
}

/// Chunk boundaries do not matter: encrypting a concatenation equals
/// encrypting the parts in order, carrying the lane state across.
pub proof fn lemma_enc_seq_append(l: LaneModel, a: Seq<u8>, b: Seq<u8>)
    ensures
        enc_seq(l, a + b).0 == enc_seq(enc_seq(l, a).0, b).0,
        enc_seq(l, a + b).1 == enc_seq(l, a).1 + enc_seq(enc_seq(l, a).0, b).1,
    decreases a.len(),
{
    if a.len() == 0 {
        assert(a + b =~= b);
        assert(enc_seq(l, a).1 + enc_seq(enc_seq(l, a).0, b).1 =~= enc_seq(l, b).1);
    } else {
        let (l1, c) = enc_byte(l, a[0]);
        assert((a + b).drop_first() =~= a.drop_first() + b);
        lemma_enc_seq_append(l1, a.drop_first(), b);
        let ca = enc_seq(l1, a.drop_first()).1;
        let cb = enc_seq(enc_seq(l1, a.drop_first()).0, b).1;
        assert((ca + cb).insert(0, c) =~= ca.insert(0, c) + cb);
    }
}

/// XOR of all bytes of a sequence; the key material is derived from it.
pub open spec fn xor_fold(s: Seq<u8>) -> u8
    decreases s.len(),
{
    if s.len() == 0 {
        0u8
    } else {
        xor_fold(s.drop_last()) ^ s.last()
    }
}

/// The primary key: byte `i` is the folded seed XOR `i * 8`.
pub open spec fn key_primary(seed: u8) -> Seq<u8> {
    Seq::new(8, |i: int| seed ^ ((i as u8) << 3))
}

/// The secondary key: the primary key with every byte XOR 0x57.
pub open spec fn key_secondary(seed: u8) -> Seq<u8> {
    Seq::new(8, |i: int| (seed ^ ((i as u8) << 3)) ^ 0x57)
}

/// The server encrypts with the primary key and decrypts with the secondary
/// one; the client swaps them. So the server's encrypt lane equals the
/// client's decrypt lane and the other way round, which is what keeps the two
/// sides of a connection in step.
pub proof fn lemma_cipher_pairing(key: Seq<u8>)
    ensures
        XOrCipher::initial_encrypt_lane(CipherMode::Server, key)
            == XOrCipher::initial_decrypt_lane(CipherMode::Client, key),
        XOrCipher::initial_decrypt_lane(CipherMode::Server, key)
            == XOrCipher::initial_encrypt_lane(CipherMode::Client, key),
{
}

/// Relies on `rand::thread_rng` and `rand::Rng::fill`: fills the buffer with
/// random bytes. Nothing is assumed of the values, only the length.
#[verifier::external_body]
fn fill_random_key() -> (r: Vec<u8>)
    ensures
        r@.len() == 4,
{
    let mut key = vec![0u8; 4];
    rand::Rng::fill(&mut rand::thread_rng(), &mut key[..]);
    key
}

/// The streaming XOR cipher with its two lanes.
pub struct XOrCipher {
    mode: CipherMode,
    decrypt_key: Vec<u8>,
    decrypt_key_offset: u8,
    encrypt_key: Vec<u8>,
    encrypt_key_offset: u8,
}

impl XOrCipher {
    /// The current state of the encrypt lane.
    pub closed spec fn enc_lane(&self) -> LaneModel {
        LaneModel { key: self.encrypt_key@, off: self.encrypt_key_offset }
    }

    /// The current state of the decrypt lane.
    pub closed spec fn dec_lane(&self) -> LaneModel {
        LaneModel { key: self.decrypt_key@, off: self.decrypt_key_offset }
    }

    /// The side this cipher was built for.
    pub closed spec fn spec_mode(&self) -> CipherMode {
        self.mode
    }

    /// Both lanes are well formed.
    pub open spec fn wf(&self) -> bool {
        lane_wf(self.enc_lane()) && lane_wf(self.dec_lane())
    }

    /// The encrypt lane a fresh cipher starts with.
    pub open spec fn initial_encrypt_lane(mode: CipherMode, key: Seq<u8>) -> LaneModel {
        match mode {
            CipherMode::Server => LaneModel { key: key_primary(xor_fold(key)), off: 0 },
            CipherMode::Client => LaneModel { key: key_secondary(xor_fold(key)), off: 0 },
        }
    }

    /// The decrypt lane a fresh cipher starts with.
    pub open spec fn initial_decrypt_lane(mode: CipherMode, key: Seq<u8>) -> LaneModel {
        match mode {
            CipherMode::Server => LaneModel { key: key_secondary(xor_fold(key)), off: 0 },
            CipherMode::Client => LaneModel { key: key_primary(xor_fold(key)), off: 0 },
        }
    }

    /// Draws the 4 random seed bytes the server derives the keys from.
    pub fn generate_key() -> (r: Vec<u8>)
        ensures
            r@.len() == 4,
    {
        fill_random_key()
    }

    /// Derives both lanes from the shared seed bytes.
    pub fn new(mode: CipherMode, key: &[u8]) -> (r: XOrCipher)
        ensures
            r.wf(),
            r.spec_mode() == mode,
            r.enc_lane() == Self::initial_encrypt_lane(mode, key@),
            r.dec_lane() == Self::initial_decrypt_lane(mode, key@),
    {
        let mut seed: u8 = 0;
        let mut i: usize = 0;
        while i < key.len()
            invariant
                i <= key@.len(),
                seed == xor_fold(key@.take(i as int)),
            decreases key@.len() - i,
        {
            proof {
                assert(key@.take(i + 1).drop_last() =~= key@.take(i as int));
                assert(key@.take(i + 1).last() == key@[i as int]);
            }
            seed = seed ^ key[i];
            i = i + 1;
        }
        proof {
            assert(key@.take(key@.len() as int) =~= key@);
        }
        let mut key_primary_bytes: Vec<u8> = Vec::new();
        let mut key_secondary_bytes: Vec<u8> = Vec::new();
        let mut index: u8 = 0;
        while index < 8
            invariant
                index <= 8,
                seed == xor_fold(key@),
                key_primary_bytes@.len() == index,
                key_secondary_bytes@.len() == index,
                forall|j: int|
                    0 <= j < index ==> key_primary_bytes@[j] == key_primary(seed)[j],
                forall|j: int|
                    0 <= j < index ==> key_secondary_bytes@[j] == key_secondary(seed)[j],
            decreases 8 - index,
        {
            let b = seed ^ (index << 3);
            key_primary_bytes.push(b);
            key_secondary_bytes.push(b ^ 0x57);
            index = index + 1;
        }
        proof {
            assert(key_primary_bytes@ =~= key_primary(seed));
            assert(key_secondary_bytes@ =~= key_secondary(seed));
        }
        match mode {
            CipherMode::Server => XOrCipher {
                mode,
                encrypt_key: key_primary_bytes,
                encrypt_key_offset: 0,
                decrypt_key: key_secondary_bytes,
                decrypt_key_offset: 0,
            },
            CipherMode::Client => XOrCipher {
                mode,
                encrypt_key: key_secondary_bytes,
                encrypt_key_offset: 0,
                decrypt_key: key_primary_bytes,
                decrypt_key_offset: 0,
            },
        }
    }

    /// The side this cipher was built for.
    pub fn mode(&self) -> (r: CipherMode)
        ensures
            r == self.spec_mode(),
    {
        self.mode
    }

    /// Ciphers the buffer in place on the encrypt lane; total, and leaves the
    /// decrypt lane untouched.
    pub fn encrypt(&mut self, buffer: &mut Vec<u8>) -> (r: Result<(), ProtocolError>)
        requires
            old(self).wf(),
        ensures
            final(self).wf(),
            r is Ok,
            final(self).spec_mode() == old(self).spec_mode(),
            final(self).dec_lane() == old(self).dec_lane(),
            final(self).enc_lane() == enc_seq(old(self).enc_lane(), old(buffer)@).0,
            final(buffer)@ == enc_seq(old(self).enc_lane(), old(buffer)@).1,
            final(buffer)@.len() == old(buffer)@.len(),
    {
        let ghost l0 = old(self).enc_lane();
        let ghost input = old(buffer)@;
        let mut index: usize = 0;
        while index < buffer.len()
            invariant
                index <= input.len(),
                buffer@.len() == input.len(),
                lane_wf(self.enc_lane()),
                self.mode == old(self).mode,
                self.decrypt_key@ == old(self).decrypt_key@,
                self.decrypt_key_offset == old(self).decrypt_key_offset,
                self.enc_lane() == enc_seq(l0, input.take(index as int)).0,
                buffer@.take(index as int) == enc_seq(l0, input.take(index as int)).1,
                forall|j: int| index <= j < input.len() ==> buffer@[j] == input[j],
            decreases input.len() - index,
        {
            let value = buffer[index];
            proof {
                assert(value == input[index as int]);
                lemma_enc_seq_snoc(l0, input.take(index as int), value);
                assert(input.take(index + 1) =~= input.take(index as int).push(value));
                assert(self.encrypt_key_offset < 8);
            }
            let key_byte = self.encrypt_key[self.encrypt_key_offset as usize];
            buffer.set(index, value ^ key_byte);
            self.encrypt_key.set(self.encrypt_key_offset as usize, value);
            proof {
                let off = self.encrypt_key_offset;
                assert(off < 8 ==> (off ^ (value & 7)) < 8) by (bit_vector);
            }
            self.encrypt_key_offset = self.encrypt_key_offset ^ (value & 0x7);
            proof {
                assert(buffer@.take(index + 1) =~= enc_seq(l0, input.take(index + 1)).1);
            }
            index = index + 1;
        }
        proof {
            assert(input.take(input.len() as int) =~= input);
            assert(buffer@.take(input.len() as int) =~= buffer@);
        }
        Ok(())
    }

    /// Deciphers the buffer in place on the decrypt lane; total, and leaves
    /// the encrypt lane untouched.
    pub fn decrypt(&mut self, buffer: &mut Vec<u8>) -> (r: Result<(), ProtocolError>)
        requires
            old(self).wf(),
        ensures
            final(self).wf(),
            r is Ok,
            final(self).spec_mode() == old(self).spec_mode(),
            final(self).enc_lane() == old(self).enc_lane(),
            final(self).dec_lane() == dec_seq(old(self).dec_lane(), old(buffer)@).0,
            final(buffer)@ == dec_seq(old(self).dec_lane(), old(buffer)@).1,
            final(buffer)@.len() == old(buffer)@.len(),
    {
        let ghost l0 = old(self).dec_lane();
        let ghost input = old(buffer)@;
        let mut index: usize = 0;
        while index < buffer.len()
            invariant
                index <= input.len(),
                buffer@.len() == input.len(),
                lane_wf(self.dec_lane()),
                self.mode == old(self).mode,
                self.encrypt_key@ == old(self).encrypt_key@,
                self.encrypt_key_offset == old(self).encrypt_key_offset,
                self.dec_lane() == dec_seq(l0, input.take(index as int)).0,
                buffer@.take(index as int) == dec_seq(l0, input.take(index as int)).1,
                forall|j: int| index <= j < input.len() ==> buffer@[j] == input[j],
            decreases input.len() - index,
        {
            let value = buffer[index];
            proof {
                assert(value == input[index as int]);
                lemma_dec_seq_snoc(l0, input.take(index as int), value);
                assert(input.take(index + 1) =~= input.take(index as int).push(value));
                assert(self.decrypt_key_offset < 8);
            }
            let key_byte = self.decrypt_key[self.decrypt_key_offset as usize];
            let plain = value ^ key_byte;
            buffer.set(index, plain);
            self.decrypt_key.set(self.decrypt_key_offset as usize, plain);
            proof {
                let off = self.decrypt_key_offset;
                assert(off < 8 ==> (off ^ (plain & 7)) < 8) by (bit_vector);
            }
            self.decrypt_key_offset = self.decrypt_key_offset ^ (plain & 0x7);
            proof {
                assert(buffer@.take(index + 1) =~= dec_seq(l0, input.take(index + 1)).1);
            }
            index = index + 1;
        }
        proof {
            assert(input.take(input.len() as int) =~= input);
            assert(buffer@.take(input.len() as int) =~= buffer@);
        }
        Ok(())
    }
}

/// Encrypting one more byte extends the output by one step from the final
/// state.
proof fn lemma_enc_seq_snoc(l: LaneModel, s: Seq<u8>, p: u8)
    ensures
        enc_seq(l, s.push(p)).0 == enc_byte(enc_seq(l, s).0, p).0,
        enc_seq(l, s.push(p)).1 == enc_seq(l, s).1.push(enc_byte(enc_seq(l, s).0, p).1),
    decreases s.len(),
{
    if s.len() == 0 {
        assert(s.push(p).drop_first() =~= Seq::<u8>::empty());
        assert(s.push(p)[0] == p);
        assert(enc_seq(l, s) == (l, Seq::<u8>::empty()));
        let (l1, c) = enc_byte(l, p);
        assert(enc_seq(l1, Seq::<u8>::empty()) == (l1, Seq::<u8>::empty()));
        assert(enc_seq(l, s.push(p)) == (l1, Seq::<u8>::empty().insert(0, c)));
        assert(Seq::<u8>::empty().insert(0, c) =~= enc_seq(l, s).1.push(c));
    } else {
        assert(s.push(p)[0] == s[0]);
        assert(s.push(p).drop_first() =~= s.drop_first().push(p));
        let (l1, c) = enc_byte(l, s[0]);
        lemma_enc_seq_snoc(l1, s.drop_first(), p);
        let tail = enc_seq(l1, s.drop_first()).1;
        let last = enc_byte(enc_seq(l1, s.drop_first()).0, p).1;
        assert(enc_seq(l, s.push(p)) == (
            enc_seq(l1, s.drop_first().push(p)).0,
            enc_seq(l1, s.drop_first().push(p)).1.insert(0, c),
        ));
        assert(enc_seq(l, s) == (enc_seq(l1, s.drop_first()).0, tail.insert(0, c)));
        assert(tail.push(last).insert(0, c) =~= tail.insert(0, c).push(last));
    }
}

/// Decrypting one more byte extends the output by one step from the final
/// state.
proof fn lemma_dec_seq_snoc(l: LaneModel, s: Seq<u8>, c: u8)
    ensures
        dec_seq(l, s.push(c)).0 == dec_byte(dec_seq(l, s).0, c).0,
        dec_seq(l, s.push(c)).1 == dec_seq(l, s).1.push(dec_byte(dec_seq(l, s).0, c).1),
    decreases s.len(),
{
    if s.len() == 0 {
        assert(s.push(c).drop_first() =~= Seq::<u8>::empty());
        assert(s.push(c)[0] == c);
        assert(dec_seq(l, s) == (l, Seq::<u8>::empty()));
        let (l1, p) = dec_byte(l, c);
        assert(dec_seq(l1, Seq::<u8>::empty()) == (l1, Seq::<u8>::empty()));
        assert(dec_seq(l, s.push(c)) == (l1, Seq::<u8>::empty().insert(0, p)));
        assert(Seq::<u8>::empty().insert(0, p) =~= dec_seq(l, s).1.push(p));
    } else {
        assert(s.push(c)[0] == s[0]);
        assert(s.push(c).drop_first() =~= s.drop_first().push(c));
        let (l1, p) = dec_byte(l, s[0]);
        lemma_dec_seq_snoc(l1, s.drop_first(), c);
        let tail = dec_seq(l1, s.drop_first()).1;
        let last = dec_byte(dec_seq(l1, s.drop_first()).0, c).1;
        assert(dec_seq(l, s.push(c)) == (
            dec_seq(l1, s.drop_first().push(c)).0,
            dec_seq(l1, s.drop_first().push(c)).1.insert(0, p),
        ));
        assert(dec_seq(l, s) == (dec_seq(l1, s.drop_first()).0, tail.insert(0, p)));
        assert(tail.push(last).insert(0, p) =~= tail.insert(0, p).push(last));
    }
}

/// The cipher that does nothing, used before the handshake installs the XOR
/// cipher.
pub struct PlainCipher {
    mode: CipherMode,
}

impl PlainCipher {
    pub fn new(mode: CipherMode) -> (r: PlainCipher)
        ensures
            r.spec_mode() == mode,
    {
        PlainCipher { mode }
    }

    /// The side this cipher was built for.
    pub closed spec fn spec_mode(&self) -> CipherMode {
        self.mode
    }

    pub fn mode(&self) -> (r: CipherMode)
        ensures
            r == self.spec_mode(),
    {
        self.mode
    }

    /// Leaves the buffer as it is.
    pub fn encrypt(&mut self, buffer: &mut Vec<u8>) -> (r: Result<(), ProtocolError>)
        ensures
            r is Ok,
            final(buffer)@ == old(buffer)@,
            *final(self) == *old(self),
    {
        Ok(())
    }

    /// Leaves the buffer as it is.
    pub fn decrypt(&mut self, buffer: &mut Vec<u8>) -> (r: Result<(), ProtocolError>)
        ensures
            r is Ok,
            final(buffer)@ == old(buffer)@,
            *final(self) == *old(self),
    {
        Ok(())
    }
}

} // verus!
