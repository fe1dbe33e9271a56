use zippy::headers::{
    CompressionMethod, DeflateCompressionMode, EndOfCentralDirectory, EndOfCentralDirectoryError,
    FileEnvironment, FileEnvironmentError, ZipFile, ZipFileError,
};

#[test]
fn test_invalid_zip_file_error() {
    let readable: Vec<u8> = Vec::new();
    let eof_central_dir_result = EndOfCentralDirectory::from_readable(&readable);

    assert!(eof_central_dir_result.is_err());
    assert_eq!(
        eof_central_dir_result.err().unwrap(),
        EndOfCentralDirectoryError::InvalidZipFile(0)
    );
}

#[test]
fn test_eof_central_directory_signature_error() {
    let readable = vec![
        0x50, 0x4B, 0x05, 0x07, 0x00, 0x00, 0x00, 0x00, 0x01, 0x00, 0x01, 0x00, 0x5A, 0x00, 0x00,
        0x00, 0x20, 0x01, 0x00, 0x00, 0x00, 0x00,
    ];
    let eof_central_dir_result = EndOfCentralDirectory::from_readable(&readable);

    assert!(eof_central_dir_result.is_err());
    assert_eq!(
        eof_central_dir_result.err().unwrap(),
        EndOfCentralDirectoryError::InvalidSignature(0x07054B50)
    );
}

#[test]
fn test_eof_central_dir_empty_zip_file_error() {
    let readable = vec![
        0x50, 0x4B, 0x05, 0x06, 0x00, 0x00, 0x00, 0x00, 0x01, 0x00, 0x00, 0x00, 0x5A, 0x00, 0x00,
        0x00, 0x20, 0x01, 0x00, 0x00, 0x00, 0x00,
    ];
    let eof_central_dir_result = EndOfCentralDirectory::from_readable(&readable);

    assert!(eof_central_dir_result.is_err());
    assert_eq!(
        eof_central_dir_result.err().unwrap(),
        EndOfCentralDirectoryError::EmptyZipFile
    );
}

#[test]
fn test_successful_eof_central_dir() {
    let readable = vec![
        0x50, 0x4B, 0x05, 0x06, 0x00, 0x00, 0x00, 0x00, 0x01, 0x00, 0x01, 0x00, 0x5A, 0x00, 0x00,
        0x00, 0x20, 0x01, 0x00, 0x00, 0x00, 0x00,
    ];
    let eof_central_dir_result = EndOfCentralDirectory::from_readable(&readable);

    assert!(eof_central_dir_result.is_ok());

    let eof_central_dir = eof_central_dir_result.unwrap();

    assert_eq!(eof_central_dir.central_dir_size(), 1);
    assert_eq!(eof_central_dir.central_dir_start_offset(), 0x00000120);
}

#[test]
fn test_zip_file_invalid_signature_error() {
    let readable = vec![
        0x50, 0x4B, 0x01, 0x03, 0x14, 0x03, 0x14, 0x00, 0x08, 0x00, 0x08, 0x00, 0x6F, 0xA7, 0x39,
        0x57, 0x7D, 0x99, 0xD7, 0xB2, 0xC6, 0x00, 0x00, 0x00, 0x30, 0x01, 0x00, 0x00, 0x0C, 0x00,
        0x20, 0x00, 0x00, 0x00, 0x00, 0x00, 0x00, 0x00, 0x00, 0x00, 0xA4, 0x81, 0x00, 0x00, 0x00,
        0x00, 0x63, 0x76, 0x5F, 0x64, 0x65, 0x62, 0x75, 0x67, 0x2E, 0x6C, 0x6F, 0x67,
    ];
    let zip_file_result = ZipFile::from_readable(&readable, 0);

    assert!(zip_file_result.is_err());
    assert_eq!(
        zip_file_result.err().unwrap(),
        ZipFileError::InvalidSignature(0x03014B50)
    );
}

#[test]
fn test_zip_file_unsupported_zip_version() {
    let readable = vec![
        0x50, 0x4B, 0x01, 0x02, 0x15, 0x03, 0x14, 0x00, 0x08, 0x00, 0x08, 0x00, 0x6F, 0xA7, 0x39,
        0x57, 0x7D, 0x99, 0xD7, 0xB2, 0xC6, 0x00, 0x00, 0x00, 0x30, 0x01, 0x00, 0x00, 0x0C, 0x00,
        0x20, 0x00, 0x00, 0x00, 0x00, 0x00, 0x00, 0x00, 0x00, 0x00, 0xA4, 0x81, 0x00, 0x00, 0x00,
        0x00, 0x63, 0x76, 0x5F, 0x64, 0x65, 0x62, 0x75, 0x67, 0x2E, 0x6C, 0x6F, 0x67,
    ];
    let zip_file_result = ZipFile::from_readable(&readable, 0);

    assert!(zip_file_result.is_err());
    assert_eq!(
        zip_file_result.err().unwrap(),
        ZipFileError::UnsupportedZipVersion(0x15)
    );
}

#[test]
fn test_unsupported_file_environment() {
    let readable = vec![
        0x50, 0x4B, 0x01, 0x02, 0x14, 0xFF, 0x14, 0x00, 0x08, 0x00, 0x08, 0x00, 0x6F, 0xA7, 0x39,
        0x57, 0x7D, 0x99, 0xD7, 0xB2, 0xC6, 0x00, 0x00, 0x00, 0x30, 0x01, 0x00, 0x00, 0x0C, 0x00,
        0x20, 0x00, 0x00, 0x00, 0x00, 0x00, 0x00, 0x00, 0x00, 0x00, 0xA4, 0x81, 0x00, 0x00, 0x00,
        0x00, 0x63, 0x76, 0x5F, 0x64, 0x65, 0x62, 0x75, 0x67, 0x2E, 0x6C, 0x6F, 0x67,
    ];
    let zip_file_result = ZipFile::from_readable(&readable, 0);

    assert!(zip_file_result.is_err());
    assert_eq!(
        zip_file_result.err().unwrap(),
        ZipFileError::FileEnvironmentError(FileEnvironmentError::InvalidFileEnvironment(0xFF))
    );
}

#[test]
fn test_unsupported_compression_method() {
    let readable = vec![
        0x50, 0x4B, 0x01, 0x02, 0x14, 0x03, 0x14, 0x00, 0x08, 0x00, 0x10, 0x00, 0x6F, 0xA7, 0x39,
        0x57, 0x7D, 0x99, 0xD7, 0xB2, 0xC6, 0x00, 0x00, 0x00, 0x30, 0x01, 0x00, 0x00, 0x0C, 0x00,
        0x20, 0x00, 0x00, 0x00, 0x00, 0x00, 0x00, 0x00, 0x00, 0x00, 0xA4, 0x81, 0x00, 0x00, 0x00,
        0x00, 0x63, 0x76, 0x5F, 0x64, 0x65, 0x62, 0x75, 0x67, 0x2E, 0x6C, 0x6F, 0x67,
    ];
    let zip_file_result = ZipFile::from_readable(&readable, 0);

    assert!(zip_file_result.is_err());
    assert_eq!(
        zip_file_result.err().unwrap(),
        ZipFileError::UnsupportedCompression(0x10)
    );
}

#[test]
fn test_file_encryption() {
    let readable = vec![
        0x50, 0x4B, 0x01, 0x02, 0x14, 0x03, 0x14, 0x00, 0x08, 0x00, 0x08, 0x00, 0x6F, 0xA7, 0x39,
        0x57, 0x7D, 0x99, 0xD7, 0xB2, 0xC6, 0x00, 0x00, 0x00, 0x30, 0x01, 0x00, 0x00, 0x0C, 0x00,
        0x20, 0x00, 0x00, 0x00, 0x00, 0x00, 0x00, 0x00, 0x00, 0x00, 0xA4, 0x81, 0x00, 0x00, 0x00,
        0x00, 0x63, 0x76, 0x5F, 0x64, 0x65, 0x62, 0x75, 0x67, 0x2E, 0x6C, 0x6F, 0x67,
    ];
    let zip_file_result = ZipFile::from_readable(&readable, 0);

    assert!(zip_file_result.is_ok());
    assert!(!zip_file_result.unwrap().0.is_encrypted());

    let readable = vec![
        0x50, 0x4B, 0x01, 0x02, 0x14, 0x03, 0x14, 0x00, 0x09, 0x00, 0x08, 0x00, 0x6F, 0xA7, 0x39,
        0x57, 0x7D, 0x99, 0xD7, 0xB2, 0xC6, 0x00, 0x00, 0x00, 0x30, 0x01, 0x00, 0x00, 0x0C, 0x00,
        0x20, 0x00, 0x00, 0x00, 0x00, 0x00, 0x00, 0x00, 0x00, 0x00, 0xA4, 0x81, 0x00, 0x00, 0x00,
        0x00, 0x63, 0x76, 0x5F, 0x64, 0x65, 0x62, 0x75, 0x67, 0x2E, 0x6C, 0x6F, 0x67,
    ];
    let zip_file_result = ZipFile::from_readable(&readable, 0);

    assert!(zip_file_result.is_ok());
    assert!(zip_file_result.unwrap().0.is_encrypted())
}

#[test]
fn test_data_descriptor_used() {
    let readable = vec![
        0x50, 0x4B, 0x01, 0x02, 0x14, 0x03, 0x14, 0x00, 0x08, 0x00, 0x08, 0x00, 0x6F, 0xA7, 0x39,
        0x57, 0x7D, 0x99, 0xD7, 0xB2, 0xC6, 0x00, 0x00, 0x00, 0x30, 0x01, 0x00, 0x00, 0x0C, 0x00,
        0x20, 0x00, 0x00, 0x00, 0x00, 0x00, 0x00, 0x00, 0x00, 0x00, 0xA4, 0x81, 0x00, 0x00, 0x00,
        0x00, 0x63, 0x76, 0x5F, 0x64, 0x65, 0x62, 0x75, 0x67, 0x2E, 0x6C, 0x6F, 0x67,
    ];
    let zip_file_result = ZipFile::from_readable(&readable, 0);

    assert!(zip_file_result.is_ok());
    assert!(zip_file_result.unwrap().0.data_descriptor_used());

    let readable = vec![
        0x50, 0x4B, 0x01, 0x02, 0x14, 0x03, 0x14, 0x00, 0x00, 0x00, 0x08, 0x00, 0x6F, 0xA7, 0x39,
        0x57, 0x7D, 0x99, 0xD7, 0xB2, 0xC6, 0x00, 0x00, 0x00, 0x30, 0x01, 0x00, 0x00, 0x0C, 0x00,
        0x20, 0x00, 0x00, 0x00, 0x00, 0x00, 0x00, 0x00, 0x00, 0x00, 0xA4, 0x81, 0x00, 0x00, 0x00,
        0x00, 0x63, 0x76, 0x5F, 0x64, 0x65, 0x62, 0x75, 0x67, 0x2E, 0x6C, 0x6F, 0x67,
    ];
    let zip_file_result = ZipFile::from_readable(&readable, 0);

    assert!(zip_file_result.is_ok());
    assert!(!zip_file_result.unwrap().0.data_descriptor_used());
}

#[test]
fn test_successful_zip_file_parsing() {
    let readable = vec![
        0x50, 0x4B, 0x01, 0x02, 0x14, 0x03, 0x14, 0x00, 0x08, 0x00, 0x08, 0x00, 0x6F, 0xA7, 0x39,
        0x57, 0x7D, 0x99, 0xD7, 0xB2, 0xC6, 0x00, 0x00, 0x00, 0x30, 0x01, 0x00, 0x00, 0x0C, 0x00,
        0x20, 0x00, 0x00, 0x00, 0x00, 0x00, 0x00, 0x00, 0x00, 0x00, 0xA4, 0x81, 0x00, 0x00, 0x00,
        0x00, 0x63, 0x76, 0x5F, 0x64, 0x65, 0x62, 0x75, 0x67, 0x2E, 0x6C, 0x6F, 0x67,
    ];
    let zip_file_result = ZipFile::from_readable(&readable, 0);

    assert!(zip_file_result.is_ok());
    assert!(zip_file_result.unwrap().0.data_descriptor_used());

    let readable = vec![
        0x50, 0x4B, 0x01, 0x02, 0x14, 0x03, 0x14, 0x00, 0x00, 0x00, 0x08, 0x00, 0x6F, 0xA7, 0x39,
        0x57, 0x7D, 0x99, 0xD7, 0xB2, 0xC6, 0x00, 0x00, 0x00, 0x30, 0x01, 0x00, 0x00, 0x0C, 0x00,
        0x20, 0x00, 0x00, 0x00, 0x00, 0x00, 0x00, 0x00, 0x00, 0x00, 0xA4, 0x81, 0x00, 0x00, 0x00,
        0x00, 0x63, 0x76, 0x5F, 0x64, 0x65, 0x62, 0x75, 0x67, 0x2E, 0x6C, 0x6F, 0x67,
    ];
    let zip_file_result = ZipFile::from_readable(&readable, 0);

    assert!(zip_file_result.is_ok());
    let (zip_file, _) = zip_file_result.unwrap();

    assert_eq!(zip_file.offset(), 0x00000000);
    assert_eq!(*zip_file.file_name(), String::from("cv_debug.log"));
    assert_eq!(zip_file.crc32(), 0xB2D7997D);
    assert_eq!(zip_file.uncompressed_size(), 0x00000130);
    assert_eq!(zip_file.compressed_size(), 0x000000C6);
    assert_eq!(*zip_file.environment(), FileEnvironment::Unix);
    assert_eq!(
        *zip_file.compression_method(),
        CompressionMethod::Deflate(DeflateCompressionMode::Normal)
    );
    assert!(!zip_file.is_dir());
}

#[test]
fn test_data_descriptor_update() {
    let readable = vec![
        0x50, 0x4B, 0x01, 0x02, 0x14, 0x03, 0x14, 0x00, 0x00, 0x00, 0x08, 0x00, 0x6F, 0xA7, 0x39,
        0x57, 0x7D, 0x99, 0xD7, 0xB2, 0xC6, 0x00, 0x00, 0x00, 0x30, 0x01, 0x00, 0x00, 0x0C, 0x00,
        0x20, 0x00, 0x00, 0x00, 0x00, 0x00, 0x00, 0x00, 0x00, 0x00, 0xA4, 0x81, 0x00, 0x00, 0x00,
        0x00, 0x63, 0x76, 0x5F, 0x64, 0x65, 0x62, 0x75, 0x67, 0x2E, 0x6C, 0x6F, 0x67,
    ];
    let zip_file_result = ZipFile::from_readable(&readable, 0);
    let (mut zip_file, _) = zip_file_result.unwrap();

    let data_descriptor_bytes = vec![
        0x50, 0x4B, 0x01, 0x02, 0x14, 0x03, 0x14, 0x00, 0x00, 0x00, 0x08, 0x00,
    ];
    zip_file
        .update_with_data_descriptor(&data_descriptor_bytes, 12)
        .unwrap();

    assert_eq!(zip_file.compressed_size(), 0x00140314);
    assert_eq!(zip_file.crc32(), 0x02014B50);
    assert_eq!(zip_file.uncompressed_size(), 0x00080000);
}

#[test]
fn test_short_source_rejected_with_size() {
    let readable = vec![0x50, 0x4B, 0x05, 0x06, 0x00];
    let result = EndOfCentralDirectory::from_readable(&readable);

    assert_eq!(
        result.err().unwrap(),
        EndOfCentralDirectoryError::InvalidZipFile(5)
    );
}

#[test]
fn test_truncated_entry_record_is_io_error() {
    let readable = vec![0x50, 0x4B, 0x01, 0x02, 0x14, 0x03];
    let result = ZipFile::from_readable(&readable, 0);

    assert!(matches!(result.err().unwrap(), ZipFileError::IOError(_)));
}

#[test]
fn test_descriptor_outside_source_is_io_error() {
    let readable = vec![
        0x50, 0x4B, 0x01, 0x02, 0x14, 0x03, 0x14, 0x00, 0x00, 0x00, 0x08, 0x00, 0x6F, 0xA7, 0x39,
        0x57, 0x7D, 0x99, 0xD7, 0xB2, 0xC6, 0x00, 0x00, 0x00, 0x30, 0x01, 0x00, 0x00, 0x0C, 0x00,
        0x20, 0x00, 0x00, 0x00, 0x00, 0x00, 0x00, 0x00, 0x00, 0x00, 0xA4, 0x81, 0x00, 0x00, 0x00,
        0x00, 0x63, 0x76, 0x5F, 0x64, 0x65, 0x62, 0x75, 0x67, 0x2E, 0x6C, 0x6F, 0x67,
    ];
    let (mut zip_file, _) = ZipFile::from_readable(&readable, 0).unwrap();
    let crc_before = zip_file.crc32();

    let descriptor = vec![0x00, 0x01, 0x02, 0x03];
    let result = zip_file.update_with_data_descriptor(&descriptor, 11);

    assert!(matches!(result.err().unwrap(), ZipFileError::IOError(_)));
    assert_eq!(zip_file.crc32(), crc_before);
}

#[test]
fn test_file_environment_from_byte_codes() {
    assert_eq!(FileEnvironment::from_byte(0), Ok(FileEnvironment::MsDos));
    assert_eq!(FileEnvironment::from_byte(3), Ok(FileEnvironment::Unix));
    assert_eq!(FileEnvironment::from_byte(6), Ok(FileEnvironment::OS2));
    assert_eq!(FileEnvironment::from_byte(7), Ok(FileEnvironment::Macintosh));
    assert_eq!(
        FileEnvironment::from_byte(10),
        Ok(FileEnvironment::WindowsNTFS)
    );
    assert_eq!(FileEnvironment::from_byte(14), Ok(FileEnvironment::FAT));
    assert_eq!(FileEnvironment::from_byte(19), Ok(FileEnvironment::OSX));
    assert_eq!(
        FileEnvironment::from_byte(1),
        Err(FileEnvironmentError::InvalidFileEnvironment(1))
    );
}

#[test]
fn test_deflate_submodes_from_flags() {
    // Bits 1-2 of the general-purpose flags pick the DEFLATE submode:
    // 0 normal, 1 maximum, 2 fast; the unused value 3 falls back to normal.
    let record = |flag_byte: u8| {
        vec![
            0x50, 0x4B, 0x01, 0x02, 0x14, 0x03, 0x14, 0x00, flag_byte, 0x00, 0x08, 0x00, 0x6F,
            0xA7, 0x39, 0x57, 0x7D, 0x99, 0xD7, 0xB2, 0xC6, 0x00, 0x00, 0x00, 0x30, 0x01, 0x00,
            0x00, 0x0C, 0x00, 0x20, 0x00, 0x00, 0x00, 0x00, 0x00, 0x00, 0x00, 0x00, 0x00, 0xA4,
            0x81, 0x00, 0x00, 0x00, 0x00, 0x63, 0x76, 0x5F, 0x64, 0x65, 0x62, 0x75, 0x67, 0x2E,
            0x6C, 0x6F, 0x67,
        ]
    };

    let modes = [
        (0x00, DeflateCompressionMode::Normal),
        (0x02, DeflateCompressionMode::Maximum),
        (0x04, DeflateCompressionMode::Fast),
        (0x06, DeflateCompressionMode::Normal),
    ];
    for (flag_byte, mode) in modes {
        let (zip_file, _) = ZipFile::from_readable(&record(flag_byte), 0).unwrap();
        assert_eq!(
            *zip_file.compression_method(),
            CompressionMethod::Deflate(mode)
        );
    }
}

#[test]
fn test_directory_entry_name() {
    // Same record shape, with the name replaced by a four-byte "dir/" and
    // the name length adjusted.
    let readable = vec![
        0x50, 0x4B, 0x01, 0x02, 0x14, 0x03, 0x14, 0x00, 0x00, 0x00, 0x08, 0x00, 0x6F, 0xA7, 0x39,
        0x57, 0x7D, 0x99, 0xD7, 0xB2, 0xC6, 0x00, 0x00, 0x00, 0x30, 0x01, 0x00, 0x00, 0x04, 0x00,
        0x20, 0x00, 0x00, 0x00, 0x00, 0x00, 0x00, 0x00, 0x00, 0x00, 0xA4, 0x81, 0x00, 0x00, 0x00,
        0x00, 0x64, 0x69, 0x72, 0x2F,
    ];
    let (zip_file, _) = ZipFile::from_readable(&readable, 0).unwrap();

    assert!(zip_file.is_dir());
    assert_eq!(*zip_file.file_name(), String::from("dir/"));
}
