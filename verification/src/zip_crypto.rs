//! The legacy ZIP stream cipher ("ZipCrypto").
//!
//! The cipher state is three 32-bit words evolved byte by byte, first over the
//! password and then over the data stream. An encrypted payload starts with a
//! twelve-byte salt; the last decoded salt byte must equal the high-order byte
//! of the entry's CRC-32, which is how a wrong password is detected.
//!
//! Note: the key schedule here advances on the byte that `process_byte`
//! returns (the XOR of input and keystream), matching the archives this
//! reader accepts and the reference test vectors.

use vstd::prelude::*;
use vstd::string::{StrSliceExecFns, StringExecFns};
use vstd::utf8::encode_utf8;

use crate::Crc32;

verus! {

/// Size of the random salt that an encrypted payload starts with.
pub const ZIP_CRYPTO_RANDOM_BYTES_LEN: usize = 12;

/// An error raised while setting up or running the stream cipher.
#[derive(Debug, PartialEq, Eq)]
pub enum ZipCryptoError {
    IncorrectPassword,
    IOError(String),
    EmptyPassword,
}

/// The three key words of the cipher state.
#[derive(Debug, Clone, Copy)]
pub struct ZipCrypto {
    pub key0: u32,
    pub key1: u32,
    pub key2: u32,
}

/// One bit step of the CRC-32 (IEEE, reflected) recurrence.
pub open spec fn spec_crc32_shift(c: u32) -> u32 {
    if c & 1 == 1 {
        0xEDB88320u32 ^ (c >> 1)
    } else {
        c >> 1
    }
}

/// `n` bit steps of the CRC-32 recurrence.
pub open spec fn spec_shift_n(c: u32, n: nat) -> u32
    decreases n,
{
    if n == 0 {
        c
    } else {
        spec_crc32_shift(spec_shift_n(c, (n - 1) as nat))
    }
}

/// The CRC-32 table entry for one byte: eight bit steps.
pub open spec fn spec_crc_table_entry(b: u8) -> u32 {
    spec_shift_n(b as u32, 8)
}

/// One byte step of the CRC-32 recurrence, as the cipher uses it to evolve
/// a key word.
pub open spec fn spec_crc32_step(crc: u32, byte: u8) -> u32 {
    (crc >> 8) ^ spec_crc_table_entry(((crc & 0xFF) as u8) ^ byte)
}

/// The fixed initial cipher state.
pub open spec fn spec_initial_keys() -> ZipCrypto {
    ZipCrypto { key0: 0x12345678u32, key1: 0x23456789u32, key2: 0x34567890u32 }
}

/// The cipher state after feeding one byte through the key schedule.
pub open spec fn spec_update_keys(s: ZipCrypto, byte: u8) -> ZipCrypto {
    let key0 = spec_crc32_step(s.key0, byte);
    let key1 = (s.key1.wrapping_add(key0 & 0xFF)).wrapping_mul(0x08088405u32).wrapping_add(1);
    let key2 = spec_crc32_step(s.key2, (key1 >> 24) as u8);
    ZipCrypto { key0, key1, key2 }
}

/// The cipher state after feeding a whole byte sequence through the key
/// schedule, in order.
pub open spec fn spec_keys_after(s: ZipCrypto, fed: Seq<u8>) -> ZipCrypto
    decreases fed.len(),
{
    if fed.len() == 0 {
        s
    } else {
        spec_update_keys(spec_keys_after(s, fed.drop_last()), fed.last())
    }
}

/// The cipher state after the password has been fed through the key schedule,
/// byte by byte in UTF-8 order, starting from the fixed initial state.
pub open spec fn spec_keys_from_password(password: Seq<char>) -> ZipCrypto {
    spec_keys_after(spec_initial_keys(), encode_utf8(password))
}

/// The keystream byte produced by a cipher state.
pub open spec fn spec_stream_byte(s: ZipCrypto) -> u8 {
    let temp = (s.key2 as u16) | 3;
    ((temp.wrapping_mul(temp ^ 1)) >> 8) as u8
}

/// The byte that `process_byte` returns: input XOR keystream.
pub open spec fn spec_process_out(s: ZipCrypto, byte: u8) -> u8 {
    spec_stream_byte(s) ^ byte
}

/// The cipher state after `process_byte`: the schedule advances on the
/// returned byte.
pub open spec fn spec_process_next(s: ZipCrypto, byte: u8) -> ZipCrypto {
    spec_update_keys(s, spec_process_out(s, byte))
}

/// The cipher state after processing a whole byte sequence.
pub open spec fn spec_state_after(s: ZipCrypto, data: Seq<u8>) -> ZipCrypto
    decreases data.len(),
{
    if data.len() == 0 {
        s
    } else {
        spec_process_next(spec_state_after(s, data.drop_last()), data.last())
    }
}

/// The bytes that processing a whole sequence returns, in order.
pub open spec fn spec_decode_bytes(s: ZipCrypto, data: Seq<u8>) -> Seq<u8>
    decreases data.len(),
{
    if data.len() == 0 {
        Seq::empty()
    } else {
        spec_decode_bytes(s, data.drop_last()).push(
            spec_process_out(spec_state_after(s, data.drop_last()), data.last()),
        )
    }
}

/// Decoding returns one byte per input byte.
pub proof fn lemma_decode_bytes_len(s: ZipCrypto, data: Seq<u8>)
    ensures
        spec_decode_bytes(s, data).len() == data.len(),
    decreases data.len(),
{
    if data.len() > 0 {
        lemma_decode_bytes_len(s, data.drop_last());
    }
}

impl ZipCrypto {
    /// A cipher state holding the fixed initial key words.
    pub fn new() -> (r: Self)
        ensures
            r == spec_initial_keys(),
    {
        Self { key0: 0x12345678, key1: 0x23456789, key2: 0x34567890 }
    }

    /// One byte step of the CRC-32 recurrence over a key word.
    pub fn calculate_crc32(&self, crc32: Crc32, byte: u8) -> (r: Crc32)
        ensures
            r == spec_crc32_step(crc32, byte),
    {
        let index: u8 = ((crc32 & 0xFF) as u8) ^ byte;
        let mut c: u32 = index as u32;
        let mut i: usize = 0;
        while i < 8
            invariant
                i <= 8,
                c == spec_shift_n(index as u32, i as nat),
            decreases 8 - i,
        {
            c = if c & 1 == 1 {
                0xEDB88320u32 ^ (c >> 1)
            } else {
                c >> 1
            };
            i = i + 1;
        }
        (crc32 >> 8) ^ c
    }

    /// Advances the key schedule on one byte.
    pub fn update_keys(&mut self, byte: u8)
        ensures
            *final(self) == spec_update_keys(*old(self), byte),
    {
        self.key0 = self.calculate_crc32(self.key0, byte);
        self.key1 = (self.key1.wrapping_add(self.key0 & 0xFF)).wrapping_mul(0x08088405).wrapping_add(
            1,
        );
        self.key2 = self.calculate_crc32(self.key2, (self.key1 >> 24) as u8);
    }

    /// The keystream byte of the current state.
    pub fn stream_byte(&self) -> (r: u8)
        ensures
            r == spec_stream_byte(*self),
    {
        let temp = (self.key2 as u16) | 3;
        ((temp.wrapping_mul(temp ^ 1)) >> 8) as u8
    }

    /// XORs one byte with the keystream and advances the schedule on the
    /// result.
    pub fn process_byte(&mut self, byte: u8) -> (r: u8)
        ensures
            r == spec_process_out(*old(self), byte),
            *final(self) == spec_process_next(*old(self), byte),
    {
        let cipher_byte = self.stream_byte() ^ byte;
        self.update_keys(cipher_byte);

        cipher_byte
    }
}

/// A decrypting view over one entry's encrypted payload (salt included).
#[derive(Debug)]
pub struct ZipCryptoReader {
    pub reader: Vec<u8>,
    pub pos: usize,
    pub zip_crypto: ZipCrypto,
}

impl ZipCryptoReader {
    /// Initializes the cipher from the password, decodes the twelve-byte salt
    /// and checks the last decoded salt byte against the high-order byte of
    /// the entry's CRC-32. A payload shorter than the salt is reported as an
    /// I/O error; a mismatching check byte as a wrong password.
    pub fn new(password: String, file_crc32: Crc32, reader: Vec<u8>) -> (r: Result<
        Self,
        ZipCryptoError,
    >)
        ensures
            ({
                let st = spec_keys_from_password(password@);
                &&& reader@.len() < 12 ==> (r matches Err(e)
                    && e matches ZipCryptoError::IOError(_))
                &&& reader@.len() >= 12 ==> {
                    let salt_out = spec_decode_bytes(st, reader@.subrange(0, 12));
                    if salt_out[11] != ((file_crc32 >> 24) as u8) {
                        r == Err::<ZipCryptoReader, ZipCryptoError>(
                            ZipCryptoError::IncorrectPassword,
                        )
                    } else {
                        &&& r matches Ok(zr)
                        &&& zr.reader@ == reader@
                        &&& zr.pos == 12
                        &&& zr.zip_crypto == spec_state_after(st, reader@.subrange(0, 12))
                    }
                }
            }),
    {
        let mut zip_crypto = ZipCrypto::new();

        let pw_bytes = password.as_str().as_bytes_vec();
        let ghost pw_seq = pw_bytes@;
        let mut i: usize = 0;
        while i < pw_bytes.len()
            invariant
                i <= pw_bytes.len(),
                pw_bytes@ == pw_seq,
                zip_crypto == spec_keys_after(spec_initial_keys(), pw_seq.subrange(0, i as int)),
            decreases pw_bytes.len() - i,
        {
            let b = pw_bytes[i];
            zip_crypto.update_keys(b);
            proof {
                let pre = pw_seq.subrange(0, i as int);
                let post = pw_seq.subrange(0, i + 1 as int);
                assert(post.drop_last() =~= pre);
                assert(post.last() == pw_seq[i as int]);
            }
            i = i + 1;
        }
        proof {
            assert(pw_seq.subrange(0, pw_seq.len() as int) =~= pw_seq);
        }
        let ghost st = zip_crypto;

        if reader.len() < 12 {
            return Err(
                ZipCryptoError::IOError(String::from_str("the payload is shorter than the salt")),
            );
        }

        let mut last_decoded: u8 = 0;
        let mut j: usize = 0;
        while j < 12
            invariant
                j <= 12,
                reader@.len() >= 12,
                zip_crypto == spec_state_after(st, reader@.subrange(0, j as int)),
                j > 0 ==> last_decoded == spec_decode_bytes(st, reader@.subrange(0, j as int)).last(),
            decreases 12 - j,
        {
            proof {
                lemma_decode_bytes_len(st, reader@.subrange(0, j + 1 as int));
                let pre = reader@.subrange(0, j as int);
                let post = reader@.subrange(0, j + 1 as int);
                assert(post.drop_last() =~= pre);
                assert(post.last() == reader@[j as int]);
            }
            last_decoded = zip_crypto.process_byte(reader[j]);
            j = j + 1;
        }

        let crc32_high_order_byte = (file_crc32 >> 24) as u8;

        // The last decoded salt byte must match the high-order byte of the
        // entry's CRC-32; otherwise the password is wrong.
        if crc32_high_order_byte != last_decoded {
            proof {
                lemma_decode_bytes_len(st, reader@.subrange(0, 12));
            }
            return Err(ZipCryptoError::IncorrectPassword);
        }

        proof {
            lemma_decode_bytes_len(st, reader@.subrange(0, 12));
        }
        Ok(Self { reader, pos: 12, zip_crypto })
    }

    /// Decodes and returns every remaining payload byte.
    pub fn decrypt_to_end(&mut self) -> (out: Vec<u8>)
        requires
            old(self).pos <= old(self).reader@.len(),
        ensures
            out@ == spec_decode_bytes(
                old(self).zip_crypto,
                old(self).reader@.subrange(old(self).pos as int, old(self).reader@.len() as int),
            ),
    {
        let ghost st = self.zip_crypto;
        let ghost start = self.pos as int;
        let ghost total = self.reader@.subrange(start, self.reader@.len() as int);
        let mut out: Vec<u8> = Vec::new();
        while self.pos < self.reader.len()
            invariant
                0 <= start <= self.pos <= self.reader@.len(),
                self.reader@ == old(self).reader@,
                total == self.reader@.subrange(start, self.reader@.len() as int),
                self.zip_crypto == spec_state_after(st, self.reader@.subrange(start, self.pos as int)),
                out@ == spec_decode_bytes(st, self.reader@.subrange(start, self.pos as int)),
            decreases self.reader@.len() - self.pos,
        {
            proof {
                let pre = self.reader@.subrange(start, self.pos as int);
                let post = self.reader@.subrange(start, self.pos + 1 as int);
                assert(post.drop_last() =~= pre);
                assert(post.last() == self.reader@[self.pos as int]);
            }
            let b = self.reader[self.pos];
            let d = self.zip_crypto.process_byte(b);
            out.push(d);
            self.pos = self.pos + 1;
        }
        proof {
            assert(self.reader@.subrange(start, self.pos as int) =~= total);
        }
        out
    }
}

} // verus!
