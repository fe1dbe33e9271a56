//! The per-entry extraction pipeline: seek past the local file header, bound
//! the payload, decrypt when encrypted, decompress, and verify the CRC-32
//! checksum.
//!
//! Extraction here is pure computation over the archive bytes: it returns
//! each member's relative path and content, and the caller materializes them
//! on disk. Inflation and the checksum call outside crates through trusted
//! wrappers; their results are named `inflate_of` and `crc32_of`, and every
//! contract speaks of those names. On a mid-entry failure nothing is
//! returned for that entry, so no partial content is handed out.

use vstd::prelude::*;
use vstd::string::StringExecFns;

use crate::headers::{read_le_u16, spec_le16, CompressionMethod, ZipFile, ZipFileView};
use crate::zip_crypto::{
    spec_decode_bytes, spec_keys_from_password, spec_state_after, ZipCryptoError, ZipCryptoReader,
    ZIP_CRYPTO_RANDOM_BYTES_LEN,
};

verus! {

/// Size of the fixed part of a local file header.
pub const MIN_LOCAL_FILE_HEADER_SIZE: usize = 30;

/// An error raised while extracting one entry.
#[derive(Debug, PartialEq, Eq)]
pub enum ExtractError {
    IOError(String),
    InvalidZipFileParent(String),
    UnableToCreateExtractedFile(String, String),
    DeflateDecodingError(String),
    InvalidExtractedFile(u32, u32),
    ZipCryptoError(ZipCryptoError),
}

/// One extracted archive member: its relative path and its content bytes.
/// A directory carries no content.
#[derive(Debug)]
pub struct ExtractedItem {
    pub path: String,
    pub content: Option<Vec<u8>>,
}

/// The abstract value of an extracted member.
#[verifier::ext_equal]
pub struct ExtractedItemView {
    pub path: Seq<char>,
    pub content: Option<Seq<u8>>,
}

impl View for ExtractedItem {
    type V = ExtractedItemView;

    open spec fn view(&self) -> ExtractedItemView {
        ExtractedItemView {
            path: self.path@,
            content: match self.content {
                Option::None => Option::None,
                Option::Some(c) => Option::Some(c@),
            },
        }
    }
}

/// What raw-DEFLATE decoding yields for a byte stream: the decompressed
/// bytes, or nothing when the stream is malformed.
pub uninterp spec fn inflate_of(data: Seq<u8>) -> Option<Seq<u8>>;

/// The IEEE CRC-32 checksum of a byte sequence.
pub uninterp spec fn crc32_of(data: Seq<u8>) -> u32;

/// Relies on flate2's `DeflateDecoder` over an in-memory buffer: raw DEFLATE
/// with no zlib or gzip framing, a function of the input bytes alone, which
/// fails exactly on streams it cannot decode.
#[verifier::external_body]
fn inflate_raw(data: &Vec<u8>) -> (r: Result<Vec<u8>, String>)
    ensures
        r is Ok <==> inflate_of(data@) is Some,
        r matches Ok(v) ==> Some(v@) == inflate_of(data@),
{
    let mut decoder = flate2::bufread::DeflateDecoder::new(data.as_slice());
    let mut out = Vec::new();
    match std::io::Read::read_to_end(&mut decoder, &mut out) {
        Ok(_) => Ok(out),
        Err(err) => Err(err.to_string()),
    }
}

/// Relies on the crc crate's `CRC_32_ISO_HDLC` algorithm: the checksum is a
/// function of the input bytes alone.
#[verifier::external_body]
fn crc32_checksum(data: &Vec<u8>) -> (r: u32)
    ensures
        r == crc32_of(data@),
{
    let crc = crc::Crc::<u32>::new(&crc::CRC_32_ISO_HDLC);
    crc.checksum(data.as_slice())
}

/// The password characters handed to the cipher, if a password was given.
pub open spec fn spec_password_view(p: Option<String>) -> Option<Seq<char>> {
    match p {
        Option::None => Option::None,
        Option::Some(s) => Option::Some(s@),
    }
}

/// What extracting one entry yields.
pub enum ExtractOutcome {
    /// The entry is a directory: there is nothing to decode.
    Directory,
    /// The entry's verified content bytes.
    Extracted(Seq<u8>),
    /// The local file header runs past the end of the source.
    TruncatedHeader,
    /// The entry is encrypted and no password was given.
    MissingPassword,
    /// The bounded payload is shorter than the cipher's salt.
    SaltTooShort,
    /// The last decoded salt byte does not match the checksum's high byte.
    WrongPassword,
    /// The DEFLATE stream is malformed.
    DeflateFailed,
    /// The decoded content's checksum differs from the entry's: expected,
    /// then actual.
    ChecksumMismatch(u32, u32),
}

/// How many payload bytes the entry owns in the source: the stored size
/// (the uncompressed size when nothing is compressed), plus the cipher's
/// salt when encrypted.
pub open spec fn spec_payload_len(v: ZipFileView) -> int {
    (if v.compression_method is NoCompression {
        v.uncompressed_size as int
    } else {
        v.compressed_size as int
    }) + if v.is_encrypted {
        12int
    } else {
        0int
    }
}

/// Where the entry's payload starts: past the fixed local header and its
/// repeated name and extra field.
pub open spec fn spec_data_start(v: ZipFileView, bytes: Seq<u8>) -> int {
    v.offset + 30 + v.name_len + spec_le16(bytes, v.offset + 28)
}

/// The entry's payload, bounded to its own bytes and clamped to the end of
/// the source, so that decoding cannot read into the next entry.
pub open spec fn spec_bounded_payload(v: ZipFileView, bytes: Seq<u8>) -> Seq<u8> {
    let start = spec_data_start(v, bytes);
    let lo = if start > bytes.len() {
        bytes.len() as int
    } else {
        start
    };
    let end = start + spec_payload_len(v);
    let hi = if end > bytes.len() {
        bytes.len() as int
    } else {
        end
    };
    bytes.subrange(lo, hi)
}

/// The tail of the pipeline, once the payload is decrypted: Store copies the
/// bytes, Deflate inflates them; either way the checksum of the resulting
/// content must equal the entry's.
pub open spec fn spec_finish_entry(v: ZipFileView, body: Seq<u8>) -> ExtractOutcome {
    if v.compression_method is NoCompression {
        let crc = crc32_of(body);
        if crc != v.crc32 {
            ExtractOutcome::ChecksumMismatch(v.crc32, crc)
        } else {
            ExtractOutcome::Extracted(body)
        }
    } else {
        match inflate_of(body) {
            Option::None => ExtractOutcome::DeflateFailed,
            Option::Some(content) => {
                let crc = crc32_of(content);
                if crc != v.crc32 {
                    ExtractOutcome::ChecksumMismatch(v.crc32, crc)
                } else {
                    ExtractOutcome::Extracted(content)
                }
            },
        }
    }
}

/// What extracting the entry from the source yields, for every input:
/// directories short-circuit; a truncated local header fails; an encrypted
/// payload needs a password and a matching salt check byte; then the
/// decoded content must carry the entry's checksum.
#[verifier::opaque]
pub open spec fn spec_extract_entry(
    v: ZipFileView,
    bytes: Seq<u8>,
    password: Option<Seq<char>>,
) -> ExtractOutcome {
    if v.is_dir {
        ExtractOutcome::Directory
    } else if v.offset + 30 > bytes.len() {
        ExtractOutcome::TruncatedHeader
    } else {
        let payload = spec_bounded_payload(v, bytes);
        if v.is_encrypted {
            match password {
                Option::None => ExtractOutcome::MissingPassword,
                Option::Some(pw) => {
                    if payload.len() < 12 {
                        ExtractOutcome::SaltTooShort
                    } else {
                        let st = spec_keys_from_password(pw);
                        let salt = payload.subrange(0, 12);
                        let salt_out = spec_decode_bytes(st, salt);
                        if salt_out[11] != (v.crc32 >> 24) as u8 {
                            ExtractOutcome::WrongPassword
                        } else {
                            let body = spec_decode_bytes(
                                spec_state_after(st, salt),
                                payload.subrange(12, payload.len() as int),
                            );
                            spec_finish_entry(v, body)
                        }
                    }
                },
            }
        } else {
            spec_finish_entry(v, payload)
        }
    }
}

/// Whether the error that extraction returned corresponds to the spec-level
/// outcome: rejected checksums carry both values exactly; a missing or wrong
/// password is reported as such; message texts are not pinned.
pub open spec fn spec_extract_error_matches(o: ExtractOutcome, e: ExtractError) -> bool {
    match o {
        ExtractOutcome::Directory => false,
        ExtractOutcome::Extracted(_) => false,
        ExtractOutcome::TruncatedHeader => e matches ExtractError::IOError(_),
        ExtractOutcome::MissingPassword => e == ExtractError::ZipCryptoError(
            ZipCryptoError::EmptyPassword,
        ),
        ExtractOutcome::SaltTooShort => e matches ExtractError::ZipCryptoError(
            ZipCryptoError::IOError(_),
        ),
        ExtractOutcome::WrongPassword => e == ExtractError::ZipCryptoError(
            ZipCryptoError::IncorrectPassword,
        ),
        ExtractOutcome::DeflateFailed => e matches ExtractError::DeflateDecodingError(_),
        ExtractOutcome::ChecksumMismatch(expected, actual) => e
            == ExtractError::InvalidExtractedFile(expected, actual),
    }
}

/// Per-entry extraction, for entry types whose abstract value is a
/// [`ZipFileView`].
pub trait Extract where Self: View<V = ZipFileView> {
    /// Extracts one entry from the archive bytes and returns its path and
    /// content; a directory comes back without content.
    fn extract(&self, extract_file: &Vec<u8>, password: &Option<String>) -> (r: Result<
        ExtractedItem,
        ExtractError,
    >)
        ensures
            ({
                match spec_extract_entry(self@, extract_file@, spec_password_view(*password)) {
                    ExtractOutcome::Directory => r matches Ok(it) && it@ == (ExtractedItemView {
                        path: self@.file_name,
                        content: Option::None,
                    }),
                    ExtractOutcome::Extracted(c) => r matches Ok(it) && it@ == (ExtractedItemView {
                        path: self@.file_name,
                        content: Option::Some(c),
                    }),
                    o => r matches Err(e) && spec_extract_error_matches(o, e),
                }
            }),
    ;
}

impl Extract for ZipFile {
    /// Extracts this entry from the archive bytes: skips its local file
    /// header, bounds the payload to the entry's own bytes, decrypts it when
    /// the entry is encrypted, decompresses it, verifies the checksum, and
    /// returns the content. The checksum is computed over the content in a
    /// single pass, which is equivalent to re-reading the written bytes
    /// since nothing transforms them afterwards.
    fn extract(&self, extract_file: &Vec<u8>, password: &Option<String>) -> Result<
        ExtractedItem,
        ExtractError,
    > {
        proof {
            reveal(spec_extract_entry);
        }
        let extracted_file_path = self.file_name().clone();

        // A directory has no payload: the caller creates it.
        if self.is_dir() {
            return Ok(ExtractedItem { path: extracted_file_path, content: Option::None });
        }

        let n = extract_file.len();
        let offset = self.offset() as usize;

        if offset > n || n - offset < MIN_LOCAL_FILE_HEADER_SIZE {
            return Err(
                ExtractError::IOError(String::from_str("the local file header is truncated")),
            );
        }

        // The local header repeats the name and extra field; they are
        // skipped, not re-validated against the central-directory copy.
        let extra_field_len = read_le_u16(extract_file, offset + 28);
        let file_name_len = self.name_len();

        let start64: u64 = offset as u64 + 30u64 + file_name_len as u64 + extra_field_len as u64;

        // ZipCrypto prepends twelve salt bytes, which the bounded payload
        // must include.
        let base_len: u64 = if let CompressionMethod::NoCompression = self.compression_method() {
            self.uncompressed_size() as u64
        } else {
            self.compressed_size() as u64
        };
        let payload_len: u64 = base_len + if self.is_encrypted() {
            ZIP_CRYPTO_RANDOM_BYTES_LEN as u64
        } else {
            0u64
        };

        let lo: usize = if start64 > n as u64 {
            n
        } else {
            start64 as usize
        };
        let hi: usize = if start64 + payload_len > n as u64 {
            n
        } else {
            (start64 + payload_len) as usize
        };

        let ghost v = self@;
        let ghost bytes = extract_file@;
        proof {
            assert(lo as int == {
                let s = spec_data_start(v, bytes);
                if s > bytes.len() {
                    bytes.len() as int
                } else {
                    s
                }
            });
            assert(hi as int == {
                let e = spec_data_start(v, bytes) + spec_payload_len(v);
                if e > bytes.len() {
                    bytes.len() as int
                } else {
                    e
                }
            });
            assert(lo <= hi <= n);
        }

        let mut payload: Vec<u8> = Vec::new();
        let mut i: usize = lo;
        while i < hi
            invariant
                lo <= i <= hi <= extract_file@.len(),
                bytes == extract_file@,
                payload@ == bytes.subrange(lo as int, i as int),
            decreases hi - i,
        {
            proof {
                assert(bytes.subrange(lo as int, i + 1 as int) =~= bytes.subrange(
                    lo as int,
                    i as int,
                ).push(bytes[i as int]));
            }
            payload.push(extract_file[i]);
            i = i + 1;
        }
        proof {
            assert(payload@ == spec_bounded_payload(v, bytes));
        }

        // Decrypt when the entry is encrypted; the cipher checks the
        // password against the salt before any payload byte is decoded.
        let body: Vec<u8> = if self.is_encrypted() {
            let password_string = match password {
                Option::Some(pass) => pass.clone(),
                Option::None => {
                    return Err(ExtractError::ZipCryptoError(ZipCryptoError::EmptyPassword));
                },
            };
            match ZipCryptoReader::new(password_string, self.crc32(), payload) {
                Ok(mut zip_crypto_reader) => zip_crypto_reader.decrypt_to_end(),
                Err(err) => {
                    return Err(ExtractError::ZipCryptoError(err));
                },
            }
        } else {
            payload
        };

        // Decode the content and verify its checksum against the entry's.
        let content: Vec<u8> = if let CompressionMethod::NoCompression =
            self.compression_method() {
            body
        } else {
            match inflate_raw(&body) {
                Ok(decoded) => decoded,
                Err(message) => {
                    return Err(ExtractError::DeflateDecodingError(message));
                },
            }
        };

        let created_file_crc32 = crc32_checksum(&content);
        let crc32 = self.crc32();

        if crc32 != created_file_crc32 {
            return Err(ExtractError::InvalidExtractedFile(crc32, created_file_crc32));
        }

        Ok(ExtractedItem { path: extracted_file_path, content: Option::Some(content) })
    }
}

/// Whole-archive extraction, for catalog types whose abstract value is a
/// [`crate::zip::ZipView`].
pub trait Archive where Self: View<V = crate::zip::ZipView> {
    /// Extracts every entry in order against the archive bytes; the first
    /// failing entry aborts the remaining ones and its error is returned.
    fn extract_items(&self, password: &Option<String>) -> (r: Result<
        Vec<ExtractedItem>,
        ExtractError,
    >)
        ensures
            ({
                match crate::zip::spec_extract_items(
                    self@.zip_files,
                    self@.bytes,
                    spec_password_view(*password),
                ) {
                    Ok(items) => r matches Ok(v) && v@.map_values(|it: ExtractedItem| it@)
                        == items,
                    Err(o) => r matches Err(e) && spec_extract_error_matches(o, e),
                }
            }),
    ;
}

} // verus!
