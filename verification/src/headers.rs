//! The archive's binary structure: the end-of-central-directory trailer,
//! central-directory entry records, and the trailing data descriptor that
//! holds an entry's checksum and sizes when they were unknown at write time.
//!
//! All records are little-endian. Parsing works on the archive bytes held in
//! memory; every parser is specified exactly by a spec function over the byte
//! sequence.

use vstd::prelude::*;
use vstd::string::StringExecFns;
use vstd::utf8::{
    decode_first_codepoint, decode_first_scalar, decode_utf8, is_continuation_byte,
    is_leading_byte_width_1, is_leading_byte_width_2, is_leading_byte_width_3,
    length_of_first_scalar, pop_first_scalar, valid_first_scalar, valid_utf8,
};

use crate::date_time::{spec_date_time_from_bytes, ZipDateTime};

verus! {

/// Size of the fixed end-of-central-directory trailer.
pub const MIN_EOF_CENTRAL_DIR_SIZE: usize = 22;

/// Size of the fixed part of a central-directory entry record.
pub const MIN_CENTRAL_DIR_SIZE: usize = 46;

/// Signature of the end-of-central-directory trailer.
pub const EOF_CENTRAL_DIR_SIGN: u32 = 0x06054b50;

/// Signature of a central-directory entry record.
pub const CENTRAL_DIR_SIGN: u32 = 0x02014b50;

/// Size of a data descriptor: CRC-32, compressed size, uncompressed size.
pub const DATA_DESCRIPTOR_SIZE: usize = 12;

/// An error raised while locating or reading the trailer.
#[derive(Debug, PartialEq, Eq)]
pub enum EndOfCentralDirectoryError {
    InvalidZipFile(u64),
    InvalidSignature(u32),
    EmptyZipFile,
    IOError(String),
}

/// An error raised while parsing a central-directory entry record.
#[derive(Debug, PartialEq, Eq)]
pub enum ZipFileError {
    InvalidSignature(u32),
    UnsupportedZipVersion(u8),
    UnsupportedCompression(u16),
    FileEnvironmentError(FileEnvironmentError),
    IOError(String),
}

/// The system on which an entry was produced, decoded from a closed set of
/// byte codes.
#[derive(Debug, PartialEq, Eq, Clone, Copy)]
pub enum FileEnvironment {
    MsDos,
    Macintosh,
    OSX,
    WindowsNTFS,
    FAT,
    OS2,
    Unix,
}

/// An environment byte outside the closed set.
#[derive(Debug, PartialEq, Eq)]
pub enum FileEnvironmentError {
    InvalidFileEnvironment(u8),
}

/// The submode of DEFLATE compression, from bits 1-2 of the general-purpose
/// flags.
#[derive(Debug, PartialEq, Eq, Clone, Copy)]
pub enum DeflateCompressionMode {
    Normal,
    Maximum,
    Fast,
    SuperFast,
}

/// How an entry's payload is compressed.
#[derive(Debug, PartialEq, Eq, Clone, Copy)]
pub enum CompressionMethod {
    NoCompression,
    Deflate(DeflateCompressionMode),
}

/// The 16-bit word at `i`, little-endian.
pub open spec fn spec_le16(b: Seq<u8>, i: int) -> u16
    recommends
        0 <= i,
        i + 2 <= b.len(),
{
    (b[i] as u16) | ((b[i + 1] as u16) << 8)
}

/// The 32-bit word at `i`, little-endian.
pub open spec fn spec_le32(b: Seq<u8>, i: int) -> u32
    recommends
        0 <= i,
        i + 4 <= b.len(),
{
    (b[i] as u32) | ((b[i + 1] as u32) << 8) | ((b[i + 2] as u32) << 16) | ((b[i + 3] as u32)
        << 24)
}

/// Reads the little-endian 16-bit word at `i`.
pub fn read_le_u16(bytes: &Vec<u8>, i: usize) -> (r: u16)
    requires
        i + 2 <= bytes.len(),
    ensures
        r == spec_le16(bytes@, i as int),
{
    (bytes[i] as u16) | ((bytes[i + 1] as u16) << 8)
}

/// Reads the little-endian 32-bit word at `i`.
pub fn read_le_u32(bytes: &Vec<u8>, i: usize) -> (r: u32)
    requires
        i + 4 <= bytes.len(),
    ensures
        r == spec_le32(bytes@, i as int),
{
    (bytes[i] as u32) | ((bytes[i + 1] as u32) << 8) | ((bytes[i + 2] as u32) << 16) | ((bytes[i
        + 3] as u32) << 24)
}

/// The environment decoded from its byte code, or the code that no
/// environment carries.
pub open spec fn spec_environment_from_byte(byte: u8) -> Result<
    FileEnvironment,
    FileEnvironmentError,
> {
    if byte == 0 {
        Ok(FileEnvironment::MsDos)
    } else if byte == 3 {
        Ok(FileEnvironment::Unix)
    } else if byte == 6 {
        Ok(FileEnvironment::OS2)
    } else if byte == 7 {
        Ok(FileEnvironment::Macintosh)
    } else if byte == 10 {
        Ok(FileEnvironment::WindowsNTFS)
    } else if byte == 14 {
        Ok(FileEnvironment::FAT)
    } else if byte == 19 {
        Ok(FileEnvironment::OSX)
    } else {
        Err(FileEnvironmentError::InvalidFileEnvironment(byte))
    }
}

impl FileEnvironment {
    /// Decodes the environment byte of an entry record.
    pub fn from_byte(byte: u8) -> (r: Result<Self, FileEnvironmentError>)
        ensures
            r == spec_environment_from_byte(byte),
    {
        match byte {
            0 => Ok(FileEnvironment::MsDos),
            3 => Ok(FileEnvironment::Unix),
            6 => Ok(FileEnvironment::OS2),
            7 => Ok(FileEnvironment::Macintosh),
            10 => Ok(FileEnvironment::WindowsNTFS),
            14 => Ok(FileEnvironment::FAT),
            19 => Ok(FileEnvironment::OSX),
            _ => Err(FileEnvironmentError::InvalidFileEnvironment(byte)),
        }
    }
}

/// The archive's directory trailer: how many entries the central directory
/// holds and where it starts.
#[derive(Debug, PartialEq, Eq, Structural)]
pub struct EndOfCentralDirectory {
    pub central_dir_size: u8,
    pub central_dir_start_offset: u32,
}

/// What the trailer of `bytes` holds: the parsed record, or why it is
/// rejected. A source shorter than the fixed trailer is invalid; a wrong
/// signature is reported with the value read; a zero entry count means an
/// empty archive, which is rejected.
pub open spec fn spec_eocd_from_bytes(bytes: Seq<u8>) -> Result<
    EndOfCentralDirectory,
    EndOfCentralDirectoryError,
> {
    if bytes.len() < 22 {
        Err(EndOfCentralDirectoryError::InvalidZipFile(bytes.len() as u64))
    } else {
        let base = bytes.len() - 22;
        let sign = spec_le32(bytes, base);
        if sign != EOF_CENTRAL_DIR_SIGN {
            Err(EndOfCentralDirectoryError::InvalidSignature(sign))
        } else if bytes[base + 10] == 0 {
            Err(EndOfCentralDirectoryError::EmptyZipFile)
        } else {
            Ok(
                EndOfCentralDirectory {
                    central_dir_size: bytes[base + 10],
                    central_dir_start_offset: spec_le32(bytes, base + 16),
                },
            )
        }
    }
}

/// Law: a source shorter than the fixed trailer is always rejected as an
/// invalid archive, carrying its byte size.
pub proof fn lemma_short_source_rejected(bytes: Seq<u8>)
    requires
        bytes.len() < 22,
    ensures
        spec_eocd_from_bytes(bytes) == Err::<EndOfCentralDirectory, EndOfCentralDirectoryError>(
            EndOfCentralDirectoryError::InvalidZipFile(bytes.len() as u64),
        ),
{
}

/// Law: a source of at least the trailer's size whose trailing record does
/// not begin with the trailer signature is rejected, carrying exactly the
/// 32-bit value that was read where the signature should stand.
pub proof fn lemma_wrong_signature_rejected(bytes: Seq<u8>)
    requires
        bytes.len() >= 22,
        spec_le32(bytes, bytes.len() - 22) != EOF_CENTRAL_DIR_SIGN,
    ensures
        spec_eocd_from_bytes(bytes) == Err::<EndOfCentralDirectory, EndOfCentralDirectoryError>(
            EndOfCentralDirectoryError::InvalidSignature(spec_le32(bytes, bytes.len() - 22)),
        ),
{
}

impl EndOfCentralDirectory {
    /// Locates and validates the trailer in the last 22 bytes of the source.
    pub fn from_readable(readable: &Vec<u8>) -> (r: Result<Self, EndOfCentralDirectoryError>)
        ensures
            r == spec_eocd_from_bytes(readable@),
    {
        let size = readable.len();

        if size < MIN_EOF_CENTRAL_DIR_SIZE {
            return Err(EndOfCentralDirectoryError::InvalidZipFile(size as u64));
        }

        let base = size - MIN_EOF_CENTRAL_DIR_SIZE;
        let sign = read_le_u32(readable, base);

        if sign != EOF_CENTRAL_DIR_SIGN {
            return Err(EndOfCentralDirectoryError::InvalidSignature(sign));
        }

        let central_dir_size = readable[base + 10];

        if central_dir_size == 0 {
            return Err(EndOfCentralDirectoryError::EmptyZipFile);
        }

        let central_dir_start_offset = read_le_u32(readable, base + 16);

        Ok(Self { central_dir_size, central_dir_start_offset })
    }

    /// Where the central directory starts, as a byte offset from the start
    /// of the source.
    pub fn central_dir_start_offset(&self) -> (r: u32)
        ensures
            r == self.central_dir_start_offset,
    {
        self.central_dir_start_offset
    }

    /// How many entries the central directory holds.
    pub fn central_dir_size(&self) -> (r: u8)
        ensures
            r == self.central_dir_size,
    {
        self.central_dir_size
    }
}

/// The abstract value of a parsed central-directory entry.
pub struct ZipFileView {
    pub offset: u32,
    pub environment: FileEnvironment,
    pub is_encrypted: bool,
    pub compression_method: CompressionMethod,
    pub data_descriptor_used: bool,
    pub date_time: ZipDateTime,
    pub crc32: u32,
    pub compressed_size: u32,
    pub uncompressed_size: u32,
    pub name_len: u16,
    pub file_name: Seq<char>,
    /// Whether the name ends with a slash. Decided on the name's bytes: in
    /// UTF-8 a trailing `0x2F` byte is exactly a trailing `'/'` character.
    pub is_dir: bool,
}

/// One archive member's metadata, decoded from its central-directory record.
/// When `data_descriptor_used` is set, `crc32`, `compressed_size` and
/// `uncompressed_size` are authoritative only after the descriptor
/// resolution pass has patched them.
#[derive(Debug)]
pub struct ZipFile {
    offset: u32,
    environment: FileEnvironment,
    is_encrypted: bool,
    compression_method: CompressionMethod,
    data_descriptor_used: bool,
    date_time: ZipDateTime,
    crc32: u32,
    compressed_size: u32,
    uncompressed_size: u32,
    name_len: u16,
    file_name: String,
    is_dir: bool,
}

impl View for ZipFile {
    type V = ZipFileView;

    closed spec fn view(&self) -> ZipFileView {
        ZipFileView {
            offset: self.offset,
            environment: self.environment,
            is_encrypted: self.is_encrypted,
            compression_method: self.compression_method,
            data_descriptor_used: self.data_descriptor_used,
            date_time: self.date_time,
            crc32: self.crc32,
            compressed_size: self.compressed_size,
            uncompressed_size: self.uncompressed_size,
            name_len: self.name_len,
            file_name: self.file_name@,
            is_dir: self.is_dir,
        }
    }
}

/// What parsing one entry record at `pos` yields.
pub enum EntryOutcome {
    /// The record parsed; `next` is where the following record starts (the
    /// variable-length name, extra field and comment are skipped, clamped to
    /// the end of the source).
    Parsed { view: ZipFileView, next: int },
    /// The record or its name runs past the end of the source.
    Truncated,
    /// The record does not begin with the entry signature.
    BadSignature(u32),
    /// The "version made by" byte is outside the supported set.
    BadVersion(u8),
    /// The environment byte is outside the closed set.
    BadEnvironment(u8),
    /// The compression code is neither Store nor Deflate.
    BadCompression(u16),
    /// The name bytes are not valid UTF-8.
    BadName,
}

/// The compression method of an entry: Store, or Deflate with the submode
/// taken from bits 1-2 of the general-purpose flags (0 normal, 1 maximum,
/// 2 fast; the unused value 3 falls back to normal).
pub open spec fn spec_compression_method(method_code: u16, gp_flags: u16) -> CompressionMethod
    recommends
        method_code == 0 || method_code == 8,
{
    if method_code == 0 {
        CompressionMethod::NoCompression
    } else {
        let mode = (gp_flags >> 1) & 3;
        if mode == 1 {
            CompressionMethod::Deflate(DeflateCompressionMode::Maximum)
        } else if mode == 2 {
            CompressionMethod::Deflate(DeflateCompressionMode::Fast)
        } else {
            CompressionMethod::Deflate(DeflateCompressionMode::Normal)
        }
    }
}

/// Where the record after the one at `pos` starts: past the fixed record,
/// the name, the extra field and the comment, clamped to the end of the
/// source.
pub open spec fn spec_entry_next_pos(bytes: Seq<u8>, pos: int) -> int
    recommends
        0 <= pos,
        pos + 46 <= bytes.len(),
{
    let name_len = spec_le16(bytes, pos + 28) as int;
    let extra_len = spec_le16(bytes, pos + 30) as int;
    let comment_len = spec_le16(bytes, pos + 32) as int;
    let next = pos + 46 + name_len + extra_len + comment_len;
    if next > bytes.len() {
        bytes.len() as int
    } else {
        next
    }
}

/// What parsing the entry record at `pos` in `bytes` yields. Exactly one
/// outcome applies; the checks run in the order the record is read:
/// truncation of the fixed record, signature, version, environment,
/// compression code, truncation of the name, name decoding.
pub open spec fn spec_parse_entry(bytes: Seq<u8>, pos: int) -> EntryOutcome {
    if !(0 <= pos && pos + 46 <= bytes.len()) {
        EntryOutcome::Truncated
    } else {
        let sign = spec_le32(bytes, pos);
        if sign != CENTRAL_DIR_SIGN {
            EntryOutcome::BadSignature(sign)
        } else {
            let version = bytes[pos + 4];
            if version != 0x14 && version != 0x1E && version != 0x3F {
                EntryOutcome::BadVersion(version)
            } else {
                let env_byte = bytes[pos + 5];
                if spec_environment_from_byte(env_byte) is Err {
                    EntryOutcome::BadEnvironment(env_byte)
                } else {
                    let gp_flags = spec_le16(bytes, pos + 8);
                    let method_code = spec_le16(bytes, pos + 10);
                    if method_code != 0 && method_code != 8 {
                        EntryOutcome::BadCompression(method_code)
                    } else {
                        let name_len = spec_le16(bytes, pos + 28);
                        if pos + 46 + name_len > bytes.len() {
                            EntryOutcome::Truncated
                        } else {
                            let name_bytes = bytes.subrange(pos + 46, pos + 46 + name_len);
                            if !valid_utf8(name_bytes) {
                                EntryOutcome::BadName
                            } else {
                                EntryOutcome::Parsed {
                                    view: ZipFileView {
                                        offset: spec_le32(bytes, pos + 42),
                                        environment: spec_environment_from_byte(env_byte)->Ok_0,
                                        is_encrypted: (gp_flags & 1) == 1,
                                        compression_method: spec_compression_method(
                                            method_code,
                                            gp_flags,
                                        ),
                                        data_descriptor_used: ((gp_flags >> 3) & 1) == 1,
                                        date_time: spec_date_time_from_bytes(
                                            spec_le16(bytes, pos + 14),
                                            spec_le16(bytes, pos + 12),
                                        ),
                                        crc32: spec_le32(bytes, pos + 16),
                                        compressed_size: spec_le32(bytes, pos + 20),
                                        uncompressed_size: spec_le32(bytes, pos + 24),
                                        name_len: name_len,
                                        file_name: decode_utf8(name_bytes),
                                        is_dir: name_len > 0 && name_bytes.last() == 0x2Fu8,
                                    },
                                    next: spec_entry_next_pos(bytes, pos),
                                }
                            }
                        }
                    }
                }
            }
        }
    }
}

/// Law: for a name held in valid UTF-8, deciding "directory" on the bytes
/// and on the characters agree: the last name byte is the slash byte `0x2F`
/// exactly when the decoded name ends with the character `'/'`. This ties
/// `is_dir`, which the parser computes from the name's bytes, to the
/// decoded file name.
pub proof fn lemma_trailing_slash_agrees(bytes: Seq<u8>)
    requires
        valid_utf8(bytes),
        bytes.len() > 0,
    ensures
        decode_utf8(bytes).len() > 0,
        (bytes.last() == 0x2F) <==> (decode_utf8(bytes).last() == '/'),
    decreases bytes.len(),
{
    let k = length_of_first_scalar(bytes);
    let rest = pop_first_scalar(bytes);
    let chars = decode_utf8(bytes);
    assert(valid_first_scalar(bytes));
    assert(valid_utf8(rest));
    assert(1 <= k <= bytes.len());
    assert(rest.len() == bytes.len() - k);
    if rest.len() > 0 {
        lemma_trailing_slash_agrees(rest);
        assert(rest.last() == bytes.last());
        assert(chars.last() == decode_utf8(rest).last());
    } else {
        // The whole sequence is one scalar; its last byte and its one
        // character decide the claim together.
        let u = decode_first_codepoint(bytes);
        let c = decode_first_scalar(bytes) as char;
        assert(chars =~= seq![c]);
        if is_leading_byte_width_1(bytes[0]) {
            let b0 = bytes[0];
            assert(k == 1);
            assert(bytes.last() == b0);
            assert(u == (b0 & 0x7F) as u32);
            assert(b0 & 0x7F == b0) by (bit_vector)
                requires
                    b0 <= 0x7F,
            ;
            assert((u as char) as u32 == u);
            assert((b0 == 0x2F) <==> (c == '/'));
        } else {
            // A multi-byte scalar: its last byte is a continuation byte and
            // its value is at least 0x80, so neither side can be a slash.
            assert(is_continuation_byte(bytes[k - 1]));
            assert(bytes.last() != 0x2F);
            assert(u >= 0x80);
            if is_leading_byte_width_2(bytes[0]) {
                let b0 = bytes[0];
                let b1 = bytes[1];
                assert((((b0 & 0x1F) as u32) << 6) | ((b1 & 0x3F) as u32) <= 0x10FFFF)
                    by (bit_vector);
            } else if is_leading_byte_width_3(bytes[0]) {
                let b0 = bytes[0];
                let b1 = bytes[1];
                let b2 = bytes[2];
                assert((((b0 & 0x0F) as u32) << 12) | (((b1 & 0x3F) as u32) << 6) | ((b2
                    & 0x3F) as u32) <= 0x10FFFF) by (bit_vector);
            }
            assert(u <= 0x10FFFF);
            assert(!(0xD800 <= u <= 0xDFFF));
            assert((u as char) as u32 == u);
            assert(c != '/');
        }
    }
}

/// Law: a parsed entry is a directory exactly when its decoded file name
/// ends with the character `'/'`.
pub proof fn lemma_parsed_entry_dir_name(bytes: Seq<u8>, pos: int)
    ensures
        ({
            match spec_parse_entry(bytes, pos) {
                EntryOutcome::Parsed { view, next } => view.is_dir <==> (view.file_name.len() > 0
                    && view.file_name.last() == '/'),
                _ => true,
            }
        }),
{
    match spec_parse_entry(bytes, pos) {
        EntryOutcome::Parsed { view, next } => {
            let name_len = spec_le16(bytes, pos + 28);
            let name_bytes = bytes.subrange(pos + 46, pos + 46 + name_len);
            if name_len > 0 {
                lemma_trailing_slash_agrees(name_bytes);
            } else {
                assert(decode_utf8(name_bytes) =~= Seq::<char>::empty());
            }
        },
        _ => {},
    }
}

/// The entry with its checksum and sizes replaced by the three words of the
/// data descriptor that ends at `end`.
pub open spec fn spec_with_descriptor(v: ZipFileView, bytes: Seq<u8>, end: int) -> ZipFileView
    recommends
        12 <= end <= bytes.len(),
{
    ZipFileView {
        crc32: spec_le32(bytes, end - 12),
        compressed_size: spec_le32(bytes, end - 8),
        uncompressed_size: spec_le32(bytes, end - 4),
        ..v
    }
}

/// Relies on `String::from_utf8`: it succeeds exactly on valid UTF-8 and
/// yields the decoded characters.
#[verifier::external_body]
fn string_from_utf8(bytes: Vec<u8>) -> (r: Option<String>)
    ensures
        r is Some <==> valid_utf8(bytes@),
        r matches Some(s) ==> s@ == decode_utf8(bytes@),
{
    String::from_utf8(bytes).ok()
}

impl ZipFile {
    /// Parses the central-directory entry record at `pos`. On success the
    /// returned position is where the next record starts. Truncated records
    /// and names that do not decode are I/O errors; every other rejection
    /// carries the offending value.
    pub fn from_readable(readable: &Vec<u8>, pos: usize) -> (r: Result<
        (ZipFile, usize),
        ZipFileError,
    >)
        ensures
            ({
                match spec_parse_entry(readable@, pos as int) {
                    EntryOutcome::Parsed { view, next } => r matches Ok(p) && p.0@ == view
                        && p.1 == next,
                    EntryOutcome::Truncated => r matches Err(e) && e matches ZipFileError::IOError(
                        _,
                    ),
                    EntryOutcome::BadSignature(s) => r == Err::<(ZipFile, usize), ZipFileError>(
                        ZipFileError::InvalidSignature(s),
                    ),
                    EntryOutcome::BadVersion(v) => r == Err::<(ZipFile, usize), ZipFileError>(
                        ZipFileError::UnsupportedZipVersion(v),
                    ),
                    EntryOutcome::BadEnvironment(b) => r == Err::<(ZipFile, usize), ZipFileError>(
                        ZipFileError::FileEnvironmentError(
                            FileEnvironmentError::InvalidFileEnvironment(b),
                        ),
                    ),
                    EntryOutcome::BadCompression(c) => r == Err::<(ZipFile, usize), ZipFileError>(
                        ZipFileError::UnsupportedCompression(c),
                    ),
                    EntryOutcome::BadName => r matches Err(e) && e matches ZipFileError::IOError(_),
                }
            }),
    {
        if pos >= readable.len() || readable.len() - pos < MIN_CENTRAL_DIR_SIZE {
            return Err(
                ZipFileError::IOError(
                    String::from_str("the central directory entry record is truncated"),
                ),
            );
        }

        let sign = read_le_u32(readable, pos);

        if sign != CENTRAL_DIR_SIGN {
            return Err(ZipFileError::InvalidSignature(sign));
        }

        let zip_version = readable[pos + 4];

        // Only the two supported minor feature versions and one legacy
        // variant are accepted.
        if zip_version != 0x14 && zip_version != 0x1E && zip_version != 0x3F {
            return Err(ZipFileError::UnsupportedZipVersion(zip_version));
        }

        let environment = match FileEnvironment::from_byte(readable[pos + 5]) {
            Ok(env) => env,
            Err(err) => {
                return Err(ZipFileError::FileEnvironmentError(err));
            },
        };

        let general_purpose_bit_flag = read_le_u16(readable, pos + 8);
        let compression_method_bytes = read_le_u16(readable, pos + 10);

        let is_encrypted = (general_purpose_bit_flag & 0x0001) == 1;

        let compression_method = if compression_method_bytes == 0x00 {
            CompressionMethod::NoCompression
        } else if compression_method_bytes == 0x08 {
            let deflate_mode = (general_purpose_bit_flag >> 1) & 0x0003;
            if deflate_mode == 1 {
                CompressionMethod::Deflate(DeflateCompressionMode::Maximum)
            } else if deflate_mode == 2 {
                CompressionMethod::Deflate(DeflateCompressionMode::Fast)
            } else {
                CompressionMethod::Deflate(DeflateCompressionMode::Normal)
            }
        } else {
            return Err(ZipFileError::UnsupportedCompression(compression_method_bytes));
        };

        let data_descriptor_used = ((general_purpose_bit_flag >> 3) & 0x0001) == 1;
        let date = read_le_u16(readable, pos + 14);
        let time = read_le_u16(readable, pos + 12);

        let zip_date_time = ZipDateTime::from_bytes(date, time);
        let crc32 = read_le_u32(readable, pos + 16);
        let compressed_size = read_le_u32(readable, pos + 20);
        let uncompressed_size = read_le_u32(readable, pos + 24);
        let file_name_len = read_le_u16(readable, pos + 28);
        let extra_field_len = read_le_u16(readable, pos + 30);
        let comment_len = read_le_u16(readable, pos + 32);
        let offset = read_le_u32(readable, pos + 42);

        let name_start = pos + MIN_CENTRAL_DIR_SIZE;
        if readable.len() - name_start < file_name_len as usize {
            return Err(
                ZipFileError::IOError(String::from_str("the entry's file name is truncated")),
            );
        }

        let mut file_name_bytes: Vec<u8> = Vec::new();
        let mut i: usize = 0;
        while i < file_name_len as usize
            invariant
                i <= file_name_len as usize,
                name_start + file_name_len as usize <= readable.len(),
                file_name_bytes@ == readable@.subrange(
                    name_start as int,
                    name_start + i as int,
                ),
            decreases file_name_len as usize - i,
        {
            proof {
                assert(readable@.subrange(name_start as int, name_start + (i + 1) as int)
                    =~= readable@.subrange(name_start as int, name_start + i as int).push(
                    readable@[name_start + i as int],
                ));
            }
            file_name_bytes.push(readable[name_start + i]);
            i = i + 1;
        }
        let ghost name_seq = readable@.subrange(
            pos + 46 as int,
            pos + 46 + file_name_len as int,
        );
        proof {
            assert(file_name_bytes@ =~= name_seq);
        }

        let is_dir = file_name_len > 0 && readable[name_start + (file_name_len as usize) - 1]
            == 0x2Fu8;
        proof {
            if file_name_len > 0 {
                assert(name_seq.last() == readable@[pos + 46 + file_name_len as int - 1]);
            }
        }

        let file_name = match string_from_utf8(file_name_bytes) {
            Some(name) => name,
            None => {
                return Err(
                    ZipFileError::IOError(
                        String::from_str("the entry's file name is not valid UTF-8"),
                    ),
                );
            },
        };

        // The extra field and the comment are not interpreted; skip them,
        // clamped to the end of the source.
        let skip = extra_field_len as usize + comment_len as usize;
        let rem = readable.len() - (name_start + file_name_len as usize);
        let next = if skip <= rem {
            name_start + file_name_len as usize + skip
        } else {
            readable.len()
        };

        let zip_file = ZipFile {
            offset,
            environment,
            is_encrypted,
            compression_method,
            data_descriptor_used,
            date_time: zip_date_time,
            crc32,
            compressed_size,
            uncompressed_size,
            name_len: file_name_len,
            file_name,
            is_dir,
        };

        Ok((zip_file, next))
    }

    /// Patches the entry's checksum and sizes from the twelve-byte data
    /// descriptor that ends at `descriptor_end_index`. A descriptor that
    /// does not fit inside the source is an I/O error and leaves the entry
    /// unchanged.
    pub fn update_with_data_descriptor(
        &mut self,
        readable: &Vec<u8>,
        descriptor_end_index: u32,
    ) -> (r: Result<(), ZipFileError>)
        ensures
            12 <= descriptor_end_index && descriptor_end_index as int <= readable@.len() ==> r is Ok
                && final(self)@ == spec_with_descriptor(
                old(self)@,
                readable@,
                descriptor_end_index as int,
            ),
            !(12 <= descriptor_end_index && descriptor_end_index as int <= readable@.len()) ==> (r
                matches Err(e) && e matches ZipFileError::IOError(_)) && final(self)@ == old(
                self,
            )@,
    {
        if descriptor_end_index < 12 || descriptor_end_index as usize > readable.len() {
            return Err(
                ZipFileError::IOError(
                    String::from_str("the data descriptor lies outside the source"),
                ),
            );
        }

        let start = descriptor_end_index as usize - DATA_DESCRIPTOR_SIZE;

        self.crc32 = read_le_u32(readable, start);
        self.compressed_size = read_le_u32(readable, start + 4);
        self.uncompressed_size = read_le_u32(readable, start + 8);

        Ok(())
    }

    /// The entry's file name, as stored in the central directory.
    pub fn file_name(&self) -> (r: &String)
        ensures
            r@ == self@.file_name,
    {
        &self.file_name
    }

    /// The entry's timestamp.
    pub fn date_time(&self) -> (r: &ZipDateTime)
        ensures
            *r == self@.date_time,
    {
        &self.date_time
    }

    /// How the entry's payload is compressed.
    pub fn compression_method(&self) -> (r: &CompressionMethod)
        ensures
            *r == self@.compression_method,
    {
        &self.compression_method
    }

    /// Whether the entry is a directory (its name ends with a slash).
    pub fn is_dir(&self) -> (r: bool)
        ensures
            r == self@.is_dir,
    {
        self.is_dir
    }

    /// The payload's size once decompressed.
    pub fn uncompressed_size(&self) -> (r: u32)
        ensures
            r == self@.uncompressed_size,
    {
        self.uncompressed_size
    }

    /// The payload's size as stored.
    pub fn compressed_size(&self) -> (r: u32)
        ensures
            r == self@.compressed_size,
    {
        self.compressed_size
    }

    /// The CRC-32 checksum of the payload once decompressed.
    pub fn crc32(&self) -> (r: u32)
        ensures
            r == self@.crc32,
    {
        self.crc32
    }

    /// The system on which the entry was produced.
    pub fn environment(&self) -> (r: &FileEnvironment)
        ensures
            *r == self@.environment,
    {
        &self.environment
    }

    /// Whether the entry's checksum and sizes live in a trailing data
    /// descriptor.
    pub fn data_descriptor_used(&self) -> (r: bool)
        ensures
            r == self@.data_descriptor_used,
    {
        self.data_descriptor_used
    }

    /// Where the entry's local file header starts in the source.
    pub fn offset(&self) -> (r: u32)
        ensures
            r == self@.offset,
    {
        self.offset
    }

    /// Whether the entry's payload is encrypted.
    pub fn is_encrypted(&self) -> (r: bool)
        ensures
            r == self@.is_encrypted,
    {
        self.is_encrypted
    }

    /// The stored length of the entry's name in bytes.
    pub fn name_len(&self) -> (r: u16)
        ensures
            r == self@.name_len,
    {
        self.name_len
    }
}

} // verus!
