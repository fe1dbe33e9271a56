//! The archive catalog: owns the archive bytes and the fully resolved,
//! ordered entry list, together with summary counts.
//!
//! Construction runs the trailer locator, then parses each central-directory
//! entry in order, then runs the data-descriptor resolution pass. Entries are
//! exposed only after resolution; a failure at any step fails the whole
//! construction.

use vstd::prelude::*;
use vstd::string::StringExecFns;

use crate::archive::{
    spec_extract_entry, spec_extract_error_matches, spec_password_view, Archive, Extract,
    ExtractError, ExtractOutcome, ExtractedItem, ExtractedItemView,
};
use crate::headers::{
    spec_eocd_from_bytes, spec_le32, spec_parse_entry, spec_with_descriptor, EndOfCentralDirectory,
    EndOfCentralDirectoryError, EntryOutcome, FileEnvironmentError, ZipFile, ZipFileError,
    ZipFileView,
};

verus! {

/// An error raised while building the catalog.
#[derive(Debug)]
pub enum ZipError {
    EndOfCentralDirectoryError(EndOfCentralDirectoryError),
    ZipFileError(ZipFileError),
    IOError(String),
}

/// The abstract value of a catalog: the source bytes, the resolved entry
/// views in parse order, and the summary counts.
#[verifier::ext_equal]
pub struct ZipView {
    pub bytes: Seq<u8>,
    pub zip_file_count: int,
    pub file_count: int,
    pub dir_count: int,
    pub files_encrypted: bool,
    pub zip_files: Seq<ZipFileView>,
}

/// The catalog of one archive.
#[derive(Debug)]
pub struct Zip {
    readable: Vec<u8>,
    zip_file_count: usize,
    file_count: usize,
    dir_count: usize,
    files_encrypted: bool,
    zip_files: Vec<ZipFile>,
}

impl View for Zip {
    type V = ZipView;

    closed spec fn view(&self) -> ZipView {
        ZipView {
            bytes: self.readable@,
            zip_file_count: self.zip_file_count as int,
            file_count: self.file_count as int,
            dir_count: self.dir_count as int,
            files_encrypted: self.files_encrypted,
            zip_files: self.zip_files@.map_values(|z: ZipFile| z@),
        }
    }
}

/// What parsing `n` consecutive entry records starting at `pos` yields: the
/// entry views in order, or the first record's failure.
pub open spec fn spec_parse_entries(bytes: Seq<u8>, pos: int, n: nat) -> Result<
    Seq<ZipFileView>,
    EntryOutcome,
>
    decreases n,
{
    if n == 0 {
        Ok(Seq::empty())
    } else {
        match spec_parse_entry(bytes, pos) {
            EntryOutcome::Parsed { view, next } => match spec_parse_entries(
                bytes,
                next,
                (n - 1) as nat,
            ) {
                Ok(rest) => Ok(seq![view] + rest),
                Err(o) => Err(o),
            },
            o => Err(o),
        }
    }
}

/// Whether the error a parser returned corresponds to the spec-level
/// outcome: rejected values are carried exactly; truncation and an
/// undecodable name surface as I/O errors.
pub open spec fn spec_entry_error_matches(o: EntryOutcome, e: ZipFileError) -> bool {
    match o {
        EntryOutcome::Parsed { .. } => false,
        EntryOutcome::Truncated => e matches ZipFileError::IOError(_),
        EntryOutcome::BadSignature(s) => e == ZipFileError::InvalidSignature(s),
        EntryOutcome::BadVersion(v) => e == ZipFileError::UnsupportedZipVersion(v),
        EntryOutcome::BadEnvironment(b) => e == ZipFileError::FileEnvironmentError(
            FileEnvironmentError::InvalidFileEnvironment(b),
        ),
        EntryOutcome::BadCompression(c) => e == ZipFileError::UnsupportedCompression(c),
        EntryOutcome::BadName => e matches ZipFileError::IOError(_),
    }
}

/// How many of the views are directories.
pub open spec fn spec_dir_count(views: Seq<ZipFileView>) -> int
    decreases views.len(),
{
    if views.len() == 0 {
        0
    } else {
        spec_dir_count(views.drop_last()) + if views.last().is_dir {
            1int
        } else {
            0int
        }
    }
}

/// Whether any of the views is encrypted.
pub open spec fn spec_any_encrypted(views: Seq<ZipFileView>) -> bool
    decreases views.len(),
{
    if views.len() == 0 {
        false
    } else {
        spec_any_encrypted(views.drop_last()) || views.last().is_encrypted
    }
}

/// Where the data descriptor of entry `i` ends: at the next entry's local
/// header, or, for the last entry, at the central directory's start.
pub open spec fn spec_descriptor_boundary(views: Seq<ZipFileView>, i: int, cd_offset: u32) -> u32
    recommends
        0 <= i < views.len(),
{
    if i == views.len() - 1 {
        cd_offset
    } else {
        views[i + 1].offset
    }
}

/// Whether entry `i` needs no descriptor, or its twelve-byte descriptor fits
/// inside the source.
pub open spec fn spec_entry_resolvable(
    views: Seq<ZipFileView>,
    bytes: Seq<u8>,
    cd_offset: u32,
    i: int,
) -> bool
    recommends
        0 <= i < views.len(),
{
    !views[i].data_descriptor_used || {
        let b = spec_descriptor_boundary(views, i, cd_offset);
        12 <= b && b <= bytes.len()
    }
}

/// Whether the descriptor resolution pass succeeds for every entry.
pub open spec fn spec_all_resolvable(
    views: Seq<ZipFileView>,
    bytes: Seq<u8>,
    cd_offset: u32,
) -> bool {
    forall|i: int|
        0 <= i < views.len() ==> #[trigger] spec_entry_resolvable(views, bytes, cd_offset, i)
}

/// Entry `i` after the resolution pass: patched from its descriptor when it
/// is descriptor-flagged, untouched otherwise.
pub open spec fn spec_resolved_entry(
    views: Seq<ZipFileView>,
    bytes: Seq<u8>,
    cd_offset: u32,
    i: int,
) -> ZipFileView
    recommends
        0 <= i < views.len(),
{
    if views[i].data_descriptor_used {
        spec_with_descriptor(
            views[i],
            bytes,
            spec_descriptor_boundary(views, i, cd_offset) as int,
        )
    } else {
        views[i]
    }
}

/// The whole entry list after the resolution pass, order preserved.
pub open spec fn spec_resolved_entries(
    views: Seq<ZipFileView>,
    bytes: Seq<u8>,
    cd_offset: u32,
) -> Seq<ZipFileView> {
    Seq::new(views.len(), |i: int| spec_resolved_entry(views, bytes, cd_offset, i))
}

/// The catalog view that construction from `bytes` yields when it succeeds,
/// given the trailer and the parsed entry views.
pub open spec fn spec_zip_view(
    bytes: Seq<u8>,
    eocd: EndOfCentralDirectory,
    views: Seq<ZipFileView>,
) -> ZipView {
    ZipView {
        bytes: bytes,
        zip_file_count: eocd.central_dir_size as int,
        file_count: eocd.central_dir_size - spec_dir_count(views),
        dir_count: spec_dir_count(views),
        files_encrypted: spec_any_encrypted(
            spec_resolved_entries(views, bytes, eocd.central_dir_start_offset),
        ),
        zip_files: spec_resolved_entries(views, bytes, eocd.central_dir_start_offset),
    }
}

impl Zip {
    /// Builds the catalog: locates the trailer, parses every
    /// central-directory entry in order, and runs the descriptor resolution
    /// pass. Any failure fails the whole construction; no partial catalog is
    /// produced.
    pub fn from_readable(readable: Vec<u8>) -> (r: Result<Self, ZipError>)
        ensures
            ({
                let bytes = readable@;
                match spec_eocd_from_bytes(bytes) {
                    Err(e) => r == Err::<Zip, ZipError>(ZipError::EndOfCentralDirectoryError(e)),
                    Ok(eocd) => match spec_parse_entries(
                        bytes,
                        eocd.central_dir_start_offset as int,
                        eocd.central_dir_size as nat,
                    ) {
                        Err(o) => r matches Err(ze) && ze matches ZipError::ZipFileError(e)
                            && spec_entry_error_matches(o, e),
                        Ok(views) => {
                            if !spec_all_resolvable(views, bytes, eocd.central_dir_start_offset) {
                                r matches Err(ze) && ze matches ZipError::IOError(_)
                            } else {
                                r matches Ok(z) && z@ == spec_zip_view(bytes, eocd, views)
                            }
                        },
                    },
                }
            }),
    {
        let ghost bytes = readable@;

        let end_of_central_dir = match EndOfCentralDirectory::from_readable(&readable) {
            Ok(eocd) => eocd,
            Err(err) => {
                return Err(ZipError::EndOfCentralDirectoryError(err));
            },
        };
        let ghost eocd = end_of_central_dir;

        let n: usize = end_of_central_dir.central_dir_size() as usize;
        let pos0: usize = end_of_central_dir.central_dir_start_offset() as usize;
        let cd_off: u32 = end_of_central_dir.central_dir_start_offset();

        let ghost f = |z: ZipFile| z@;

        let mut zip_files: Vec<ZipFile> = Vec::new();
        let mut cur: usize = pos0;
        let mut k: usize = 0;
        while k < n
            invariant
                k <= n,
                readable@ == bytes,
                zip_files@.len() == k,
                f == (|z: ZipFile| z@),
                spec_eocd_from_bytes(bytes) == Ok::<
                    EndOfCentralDirectory,
                    EndOfCentralDirectoryError,
                >(eocd),
                pos0 as int == eocd.central_dir_start_offset as int,
                n as nat == eocd.central_dir_size as nat,
                ({
                    let done = zip_files@.map_values(f);
                    match spec_parse_entries(bytes, cur as int, (n - k) as nat) {
                        Ok(rest) => spec_parse_entries(bytes, pos0 as int, n as nat) == Ok::<
                            Seq<ZipFileView>,
                            EntryOutcome,
                        >(done + rest),
                        Err(o) => spec_parse_entries(bytes, pos0 as int, n as nat) == Err::<
                            Seq<ZipFileView>,
                            EntryOutcome,
                        >(o),
                    }
                }),
            decreases n - k,
        {
            match ZipFile::from_readable(&readable, cur) {
                Ok((zip_file, next)) => {
                    proof {
                        let done = zip_files@.map_values(f);
                        let m = (n - k) as nat;
                        match spec_parse_entry(bytes, cur as int) {
                            EntryOutcome::Parsed { view, next: nx } => {
                                assert(view == zip_file@);
                                assert(nx == next as int);
                                match spec_parse_entries(bytes, nx, (m - 1) as nat) {
                                    Ok(rest) => {
                                        assert(spec_parse_entries(bytes, cur as int, m) == Ok::<
                                            Seq<ZipFileView>,
                                            EntryOutcome,
                                        >(seq![view] + rest));
                                        assert(done + (seq![view] + rest) =~= done.push(view)
                                            + rest);
                                        assert(zip_files@.push(zip_file).map_values(f)
                                            =~= done.push(zip_file@));
                                    },
                                    Err(o) => {
                                        assert(spec_parse_entries(bytes, cur as int, m) == Err::<
                                            Seq<ZipFileView>,
                                            EntryOutcome,
                                        >(o));
                                    },
                                }
                            },
                            _ => {
                                assert(false);
                            },
                        }
                    }
                    zip_files.push(zip_file);
                    cur = next;
                },
                Err(err) => {
                    proof {
                        let m = (n - k) as nat;
                        match spec_parse_entry(bytes, cur as int) {
                            EntryOutcome::Parsed { view, next } => {
                                assert(false);
                            },
                            o => {
                                assert(spec_parse_entries(bytes, cur as int, m) == Err::<
                                    Seq<ZipFileView>,
                                    EntryOutcome,
                                >(o));
                                assert(spec_entry_error_matches(o, err));
                            },
                        }
                    }
                    return Err(ZipError::ZipFileError(err));
                },
            }
            k = k + 1;
        }

        let ghost views = zip_files@.map_values(f);
        proof {
            assert(spec_parse_entries(bytes, cur as int, 0) == Ok::<Seq<ZipFileView>, EntryOutcome>(
                Seq::empty(),
            ));
            assert(views + Seq::<ZipFileView>::empty() =~= views);
            assert(spec_parse_entries(bytes, pos0 as int, n as nat) == Ok::<
                Seq<ZipFileView>,
                EntryOutcome,
            >(views));
        }

        // Count the directories among the parsed entries; the remaining
        // entries are files.
        let mut dir_count: usize = 0;
        let mut i: usize = 0;
        while i < zip_files.len()
            invariant
                i <= zip_files@.len(),
                dir_count <= i,
                f == (|z: ZipFile| z@),
                views == zip_files@.map_values(f),
                dir_count == spec_dir_count(views.take(i as int)),
            decreases zip_files@.len() - i,
        {
            proof {
                assert(views.take(i + 1 as int).drop_last() =~= views.take(i as int));
                assert(views.take(i + 1 as int).last() == views[i as int]);
            }
            if zip_files[i].is_dir() {
                dir_count = dir_count + 1;
            }
            i = i + 1;
        }
        proof {
            assert(views.take(views.len() as int) =~= views);
        }
        let file_count = n - dir_count;

        // Resolution pass: each descriptor-flagged entry takes its checksum
        // and sizes from the twelve bytes just before the next entry's local
        // header, or, for the last entry, just before the central directory.
        let mut resolved: Vec<ZipFile> = Vec::new();
        let mut j: usize = 0;
        while zip_files.len() > 0
            invariant
                j == resolved@.len(),
                j + zip_files@.len() == views.len(),
                views.len() == n,
                readable@ == bytes,
                f == (|z: ZipFile| z@),
                spec_eocd_from_bytes(bytes) == Ok::<
                    EndOfCentralDirectory,
                    EndOfCentralDirectoryError,
                >(eocd),
                cd_off == eocd.central_dir_start_offset,
                spec_parse_entries(
                    bytes,
                    eocd.central_dir_start_offset as int,
                    eocd.central_dir_size as nat,
                ) == Ok::<Seq<ZipFileView>, EntryOutcome>(views),
                zip_files@.map_values(f) =~= views.skip(j as int),
                forall|t: int|
                    0 <= t < j ==> #[trigger] spec_entry_resolvable(views, bytes, cd_off, t),
                forall|t: int|
                    0 <= t < j ==> resolved@.map_values(f)[t] == #[trigger] spec_resolved_entry(
                        views,
                        bytes,
                        cd_off,
                        t,
                    ),
            decreases zip_files@.len(),
        {
            let ghost pre = zip_files@;
            let mut zip_file = zip_files.remove(0);
            proof {
                assert(zip_files@ =~= pre.subrange(1, pre.len() as int));
                assert(zip_file == pre[0]);
                assert(pre.map_values(f)[0] == views.skip(j as int)[0]);
                assert(views.skip(j as int)[0] == views[j as int]);
                assert(zip_file@ == views[j as int]);
                assert forall|t: int| 0 <= t < zip_files@.len() implies zip_files@.map_values(f)[t]
                    == views.skip(j + 1 as int)[t] by {
                    assert(zip_files@[t] == pre[t + 1]);
                    assert(pre.map_values(f)[t + 1] == views.skip(j as int)[t + 1]);
                    assert(views.skip(j as int)[t + 1] == views[j + 1 + t]);
                    assert(views.skip(j + 1 as int)[t] == views[j + 1 + t]);
                }
                assert(zip_files@.map_values(f) =~= views.skip(j + 1 as int));
            }
            let boundary: u32 = if zip_files.len() == 0 {
                cd_off
            } else {
                proof {
                    assert(zip_files@.map_values(f)[0] == views.skip(j + 1 as int)[0]);
                    assert(views.skip(j + 1 as int)[0] == views[j + 1 as int]);
                }
                zip_files[0].offset()
            };
            proof {
                assert(boundary == spec_descriptor_boundary(views, j as int, cd_off));
            }
            if zip_file.data_descriptor_used() {
                match zip_file.update_with_data_descriptor(&readable, boundary) {
                    Ok(_) => {},
                    Err(_) => {
                        proof {
                            assert(!spec_entry_resolvable(views, bytes, cd_off, j as int));
                            assert(!spec_all_resolvable(views, bytes, cd_off));
                        }
                        return Err(
                            ZipError::IOError(
                                String::from_str(
                                    "a data descriptor lies outside the source",
                                ),
                            ),
                        );
                    },
                }
            }
            proof {
                assert(zip_file@ == spec_resolved_entry(views, bytes, cd_off, j as int));
                assert(resolved@.push(zip_file).map_values(f) =~= resolved@.map_values(f).push(
                    zip_file@,
                ));
            }
            resolved.push(zip_file);
            j = j + 1;
        }

        proof {
            assert(resolved@.map_values(f) =~= spec_resolved_entries(views, bytes, cd_off));
        }

        // Derive the encryption flag from the resolved entries.
        let mut files_encrypted = false;
        let mut e: usize = 0;
        let ghost rviews = resolved@.map_values(f);
        while e < resolved.len()
            invariant
                e <= resolved@.len(),
                f == (|z: ZipFile| z@),
                rviews == resolved@.map_values(f),
                files_encrypted == spec_any_encrypted(rviews.take(e as int)),
            decreases resolved@.len() - e,
        {
            proof {
                assert(rviews.take(e + 1 as int).drop_last() =~= rviews.take(e as int));
                assert(rviews.take(e + 1 as int).last() == rviews[e as int]);
            }
            if resolved[e].is_encrypted() {
                files_encrypted = true;
            }
            e = e + 1;
        }
        proof {
            assert(rviews.take(rviews.len() as int) =~= rviews);
        }

        let zip = Zip {
            readable,
            zip_file_count: n,
            file_count,
            dir_count,
            files_encrypted,
            zip_files: resolved,
        };
        proof {
            assert(zip@ =~= spec_zip_view(bytes, eocd, views));
        }
        Ok(zip)
    }

    /// How many entries the archive holds.
    pub fn zip_file_couunt(&self) -> (r: usize)
        ensures
            r == self@.zip_file_count,
    {
        self.zip_file_count
    }

    /// The resolved entries, in parse order.
    pub fn zip_files(&self) -> (r: &Vec<ZipFile>)
        ensures
            r@.map_values(|z: ZipFile| z@) == self@.zip_files,
    {
        &self.zip_files
    }

    /// How many entries are directories.
    pub fn dir_count(&self) -> (r: usize)
        ensures
            r == self@.dir_count,
    {
        self.dir_count
    }

    /// How many entries are files.
    pub fn file_count(&self) -> (r: usize)
        ensures
            r == self@.file_count,
    {
        self.file_count
    }

    /// Whether any entry's payload is encrypted.
    pub fn files_encrypted(&self) -> (r: bool)
        ensures
            r == self@.files_encrypted,
    {
        self.files_encrypted
    }
}

impl Archive for Zip {
    /// Extracts every entry in order against the owned archive bytes. On
    /// success the items come back in entry order, ready to be materialized
    /// on disk by the caller.
    fn extract_items(&self, password: &Option<String>) -> Result<
        Vec<ExtractedItem>,
        ExtractError,
    > {
        let ghost views = self@.zip_files;
        let ghost bytes = self@.bytes;
        let ghost pw = spec_password_view(*password);
        let ghost g = |it: ExtractedItem| it@;
        let ghost f = |z: ZipFile| z@;

        let mut items: Vec<ExtractedItem> = Vec::new();
        let mut i: usize = 0;
        proof {
            assert(views.skip(0) =~= views);
            match spec_extract_items(views, bytes, pw) {
                Ok(rest) => {
                    assert(Seq::<ExtractedItemView>::empty() + rest =~= rest);
                },
                Err(_) => {},
            }
        }
        while i < self.zip_files.len()
            invariant
                i <= self.zip_files@.len(),
                g == (|it: ExtractedItem| it@),
                f == (|z: ZipFile| z@),
                views == self.zip_files@.map_values(f),
                bytes == self.readable@,
                pw == spec_password_view(*password),
                ({
                    let done = items@.map_values(g);
                    match spec_extract_items(views.skip(i as int), bytes, pw) {
                        Ok(rest) => spec_extract_items(views, bytes, pw) == Ok::<
                            Seq<ExtractedItemView>,
                            ExtractOutcome,
                        >(done + rest),
                        Err(o) => spec_extract_items(views, bytes, pw) == Err::<
                            Seq<ExtractedItemView>,
                            ExtractOutcome,
                        >(o),
                    }
                }),
            decreases self.zip_files@.len() - i,
        {
            proof {
                assert(views.skip(i as int)[0] == views[i as int]);
                assert(views.skip(i as int).drop_first() =~= views.skip(i + 1 as int));
                assert(views[i as int] == self.zip_files@[i as int]@);
            }
            match self.zip_files[i].extract(&self.readable, password) {
                Ok(item) => {
                    proof {
                        let done = items@.map_values(g);
                        let s_i = views.skip(i as int);
                        match spec_extract_entry(views[i as int], bytes, pw) {
                            ExtractOutcome::Directory => {
                                let itv = ExtractedItemView {
                                    path: views[i as int].file_name,
                                    content: Option::None,
                                };
                                assert(item@ == itv);
                                match spec_extract_items(views.skip(i + 1 as int), bytes, pw) {
                                    Ok(rest) => {
                                        assert(spec_extract_items(s_i, bytes, pw) == Ok::<
                                            Seq<ExtractedItemView>,
                                            ExtractOutcome,
                                        >(seq![itv] + rest));
                                        assert(done + (seq![itv] + rest) =~= done.push(itv)
                                            + rest);
                                        assert(items@.push(item).map_values(g) =~= done.push(
                                            item@,
                                        ));
                                    },
                                    Err(o) => {
                                        assert(spec_extract_items(s_i, bytes, pw) == Err::<
                                            Seq<ExtractedItemView>,
                                            ExtractOutcome,
                                        >(o));
                                    },
                                }
                            },
                            ExtractOutcome::Extracted(c) => {
                                let itv = ExtractedItemView {
                                    path: views[i as int].file_name,
                                    content: Option::Some(c),
                                };
                                assert(item@ == itv);
                                match spec_extract_items(views.skip(i + 1 as int), bytes, pw) {
                                    Ok(rest) => {
                                        assert(spec_extract_items(s_i, bytes, pw) == Ok::<
                                            Seq<ExtractedItemView>,
                                            ExtractOutcome,
                                        >(seq![itv] + rest));
                                        assert(done + (seq![itv] + rest) =~= done.push(itv)
                                            + rest);
                                        assert(items@.push(item).map_values(g) =~= done.push(
                                            item@,
                                        ));
                                    },
                                    Err(o) => {
                                        assert(spec_extract_items(s_i, bytes, pw) == Err::<
                                            Seq<ExtractedItemView>,
                                            ExtractOutcome,
                                        >(o));
                                    },
                                }
                            },
                            _ => {
                                assert(false);
                            },
                        }
                    }
                    items.push(item);
                },
                Err(err) => {
                    proof {
                        let s_i = views.skip(i as int);
                        match spec_extract_entry(views[i as int], bytes, pw) {
                            ExtractOutcome::Directory => {
                                assert(false);
                            },
                            ExtractOutcome::Extracted(c) => {
                                assert(false);
                            },
                            o => {
                                assert(spec_extract_items(s_i, bytes, pw) == Err::<
                                    Seq<ExtractedItemView>,
                                    ExtractOutcome,
                                >(o));
                                assert(spec_extract_error_matches(o, err));
                            },
                        }
                    }
                    return Err(err);
                },
            }
            i = i + 1;
        }
        proof {
            let done = items@.map_values(g);
            assert(views.skip(views.len() as int) =~= Seq::<ZipFileView>::empty());
            assert(spec_extract_items(views.skip(views.len() as int), bytes, pw) == Ok::<
                Seq<ExtractedItemView>,
                ExtractOutcome,
            >(Seq::empty()));
            assert(done + Seq::<ExtractedItemView>::empty() =~= done);
        }
        Ok(items)
    }
}

/// The items that extracting every entry in order yields, or the first
/// failing entry's outcome. Extraction is fail-fast: entries after a
/// failing one are not attempted.
pub open spec fn spec_extract_items(
    views: Seq<ZipFileView>,
    bytes: Seq<u8>,
    password: Option<Seq<char>>,
) -> Result<Seq<ExtractedItemView>, ExtractOutcome>
    decreases views.len(),
{
    if views.len() == 0 {
        Ok(Seq::empty())
    } else {
        match spec_extract_entry(views[0], bytes, password) {
            ExtractOutcome::Directory => match spec_extract_items(
                views.drop_first(),
                bytes,
                password,
            ) {
                Ok(rest) => Ok(
                    seq![ExtractedItemView { path: views[0].file_name, content: Option::None }]
                        + rest,
                ),
                Err(o) => Err(o),
            },
            ExtractOutcome::Extracted(c) => match spec_extract_items(
                views.drop_first(),
                bytes,
                password,
            ) {
                Ok(rest) => Ok(
                    seq![
                        ExtractedItemView {
                            path: views[0].file_name,
                            content: Option::Some(c),
                        },
                    ] + rest,
                ),
                Err(o) => Err(o),
            },
            o => Err(o),
        }
    }
}

/// Law: a descriptor-flagged entry is resolved from the twelve bytes
/// immediately before the following entry's local-header offset — or, for
/// the last entry, before the central directory's start — overwriting
/// exactly its checksum and sizes in that field order. Entry order, the
/// list's length and every other field are kept.
pub proof fn lemma_resolution_uses_following_offset(
    views: Seq<ZipFileView>,
    bytes: Seq<u8>,
    cd_offset: u32,
    i: int,
)
    requires
        0 <= i < views.len(),
        views[i].data_descriptor_used,
    ensures
        spec_resolved_entries(views, bytes, cd_offset).len() == views.len(),
        ({
            let b = spec_descriptor_boundary(views, i, cd_offset) as int;
            let r = spec_resolved_entries(views, bytes, cd_offset)[i];
            &&& i < views.len() - 1 ==> b == views[i + 1].offset
            &&& i == views.len() - 1 ==> b == cd_offset
            &&& r.crc32 == spec_le32(bytes, b - 12)
            &&& r.compressed_size == spec_le32(bytes, b - 8)
            &&& r.uncompressed_size == spec_le32(bytes, b - 4)
            &&& r.file_name == views[i].file_name
            &&& r.offset == views[i].offset
            &&& r.is_dir == views[i].is_dir
            &&& r.is_encrypted == views[i].is_encrypted
            &&& r.compression_method == views[i].compression_method
        }),
{
}

/// Law: an entry that is not descriptor-flagged passes through the
/// resolution pass untouched.
pub proof fn lemma_resolution_keeps_unflagged_entries(
    views: Seq<ZipFileView>,
    bytes: Seq<u8>,
    cd_offset: u32,
    i: int,
)
    requires
        0 <= i < views.len(),
        !views[i].data_descriptor_used,
    ensures
        spec_resolved_entries(views, bytes, cd_offset)[i] == views[i],
{
}

/// Law: when extraction succeeds it yields exactly one item per entry, in
/// entry order, and each item carries its entry's name as the path.
pub proof fn lemma_extraction_preserves_entries(
    views: Seq<ZipFileView>,
    bytes: Seq<u8>,
    password: Option<Seq<char>>,
)
    ensures
        spec_extract_items(views, bytes, password) matches Ok(items) ==> {
            &&& items.len() == views.len()
            &&& forall|i: int|
                0 <= i < views.len() ==> #[trigger] items[i].path == views[i].file_name
        },
    decreases views.len(),
{
    if views.len() > 0 {
        lemma_extraction_preserves_entries(views.drop_first(), bytes, password);
        if spec_extract_items(views, bytes, password) is Ok {
            let items = spec_extract_items(views, bytes, password)->Ok_0;
            let rest = spec_extract_items(views.drop_first(), bytes, password)->Ok_0;
            assert forall|i: int| 0 <= i < views.len() implies #[trigger] items[i].path
                == views[i].file_name by {
                if i > 0 {
                    assert(items[i] == rest[i - 1]);
                    assert(views.drop_first()[i - 1] == views[i]);
                }
            }
        }
    }
}

/// Law: extraction mutates neither the catalog nor the source, so running
/// it twice over the same archive bytes, entry list and password yields the
/// same outcome — overwriting the first run's files with identical content.
pub proof fn lemma_extraction_repeatable(
    views1: Seq<ZipFileView>,
    bytes1: Seq<u8>,
    password1: Option<Seq<char>>,
    views2: Seq<ZipFileView>,
    bytes2: Seq<u8>,
    password2: Option<Seq<char>>,
)
    requires
        views1 == views2,
        bytes1 == bytes2,
        password1 == password2,
    ensures
        spec_extract_items(views1, bytes1, password1) == spec_extract_items(
            views2,
            bytes2,
            password2,
        ),
{
}

} // verus!
