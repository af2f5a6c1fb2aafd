//! The archive index: which bundles exist, which file lives where, and the
//! human-readable path of each file.

use crate::bundles::bundle::{header_complete, parse_header, Bundle, BundleError, BundleView};
use crate::bundles::hash::{
    algorithm_for_root, first_hit, fnv1a64, lemma_first_hit_is_key, murmur64a, murmur_hash64a,
    HashAlgorithm,
};
use crate::bundles::paths::{byte_views, decode_paths, read_paths};
use crate::bytes::{fits, has_room, i32_at, le_i32_at, le_u32_at, le_u64_at, u32_at, u64_at};
use crate::text::{ends_with, has_suffix, to_ascii_lowercase, utf8_lossy, utf8_lossy_text};
use std::collections::HashMap;
use vstd::prelude::*;
use vstd::string::*;

verus! {

broadcast use vstd::std_specs::hash::group_hash_axioms;

/// Length of one record of the file table and of the directory table.
pub const RECORD_LEN: usize = 20;

/// Why an index could not be read.
#[derive(Debug, Clone, Copy, PartialEq, Eq, Structural)]
pub enum IndexError {
    /// A table announces more than the input holds.
    Truncated,
    /// The bundle behind the tables, which holds the directory payload, could
    /// not be read or decompressed.
    DirectoryBundle(BundleError),
}

/// A bundle file of the archive.
#[derive(Debug, Clone, PartialEq, Eq)]
pub struct BundleInfo {
    pub name: String,
    pub uncompressed_size: u32,
}

/// A `BundleInfo` as a mathematical value.
pub struct BundleInfoView {
    pub name: Seq<char>,
    pub uncompressed_size: u32,
}

impl View for BundleInfo {
    type V = BundleInfoView;

    open spec fn view(&self) -> BundleInfoView {
        BundleInfoView { name: self.name@, uncompressed_size: self.uncompressed_size }
    }
}

/// The places in the archive where the bytes of the bundle called `name` are
/// looked for, in order.
pub open spec fn archive_paths(name: Seq<char>) -> Seq<Seq<char>> {
    seq![
        "Bundles2/"@ + name,
        "Bundles2/"@ + name + ".bundle.bin"@,
        name,
        name + ".bundle.bin"@,
    ]
}

/// The name under which the bundle called `name` is fetched from the content
/// server.
pub open spec fn download_name(name: Seq<char>) -> Seq<char> {
    if has_suffix(name, ".bundle.bin"@) {
        name
    } else {
        name + ".bundle.bin"@
    }
}

impl BundleInfo {
    /// The places in the archive where the bytes of the bundle are looked
    /// for, in order.
    pub fn archive_paths(&self) -> (paths: Vec<String>)
        ensures
            paths@.map_values(|p: String| p@) == archive_paths(self.name@),
    {
        let name = self.name.as_str();
        let first = String::from_str("Bundles2/").concat(name);
        let second = String::from_str("Bundles2/").concat(name).concat(".bundle.bin");
        let third = String::from_str(name);
        let fourth = String::from_str(name).concat(".bundle.bin");
        let mut paths: Vec<String> = Vec::new();
        paths.push(first);
        paths.push(second);
        paths.push(third);
        paths.push(fourth);
        assert(paths@.map_values(|p: String| p@) =~= archive_paths(self.name@));
        paths
    }

    /// The name under which the bundle is fetched from the content server.
    pub fn download_name(&self) -> (name: String)
        ensures
            name@ == download_name(self.name@),
    {
        if ends_with(self.name.as_str(), ".bundle.bin") {
            self.name.clone()
        } else {
            String::from_str(self.name.as_str()).concat(".bundle.bin")
        }
    }
}

/// Where one file lives: the bundle and the byte range inside its
/// decompressed payload. `path` is empty until the path has been resolved.
#[derive(Debug, Clone, PartialEq, Eq)]
pub struct FileInfo {
    pub path_hash: u64,
    pub bundle_index: u32,
    pub file_offset: u32,
    pub file_size: u32,
    pub path: String,
}

/// A `FileInfo` as a mathematical value.
pub struct FileInfoView {
    pub path_hash: u64,
    pub bundle_index: u32,
    pub file_offset: u32,
    pub file_size: u32,
    pub path: Seq<char>,
}

impl View for FileInfo {
    type V = FileInfoView;

    open spec fn view(&self) -> FileInfoView {
        FileInfoView {
            path_hash: self.path_hash,
            bundle_index: self.bundle_index,
            file_offset: self.file_offset,
            file_size: self.file_size,
            path: self.path@,
        }
    }
}

impl FileInfo {
    /// The bytes of the file within the decompressed payload of its bundle,
    /// or nothing where the file does not lie inside the payload.
    pub fn data<'a>(&self, payload: &'a [u8]) -> (bytes: Option<&'a [u8]>)
        ensures
            match bytes {
                Some(bytes) => self.file_offset + self.file_size <= payload@.len() && bytes@
                    == payload@.subrange(
                    self.file_offset as int,
                    self.file_offset + self.file_size,
                ),
                None => self.file_offset + self.file_size > payload@.len(),
            },
    {
        let start = self.file_offset as u64;
        let end = start + self.file_size as u64;
        if end <= payload.len() as u64 {
            Some(&payload[start as usize..end as usize])
        } else {
            None
        }
    }
}

/// A span of the directory payload that encodes the paths of one directory.
#[derive(Debug, Clone, Copy, PartialEq, Eq, Structural)]
pub struct DirectoryInfo {
    pub path_hash: u64,
    pub offset: u32,
    pub size: u32,
    pub recursive_size: u32,
}

/// The bundle table and the file table of an archive.
#[derive(Debug, Clone, PartialEq, Eq)]
pub struct Index {
    pub bundles: Vec<BundleInfo>,
    pub files: HashMap<u64, FileInfo>,
}

/// An `Index` as a mathematical value.
pub struct IndexView {
    pub bundles: Seq<BundleInfoView>,
    pub files: Map<u64, FileInfoView>,
}

/// The bundle table as a sequence of mathematical values.
pub open spec fn bundle_views(bundles: Seq<BundleInfo>) -> Seq<BundleInfoView> {
    bundles.map_values(|b: BundleInfo| b@)
}

/// The file table as a map of mathematical values.
pub open spec fn file_views(files: Map<u64, FileInfo>) -> Map<u64, FileInfoView> {
    files.map_values(|f: FileInfo| f@)
}

impl View for Index {
    type V = IndexView;

    open spec fn view(&self) -> IndexView {
        IndexView { bundles: bundle_views(self.bundles@), files: file_views(self.files@) }
    }
}

/// What the head of an index holds, before any path is resolved: the three
/// tables and the header of the bundle behind them.
#[derive(Debug, Clone, PartialEq, Eq)]
pub struct IndexTables {
    /// The bundle table and the file table; every path is still empty.
    pub index: Index,
    /// The directory table.
    pub directories: Vec<DirectoryInfo>,
    /// Where the embedded bundle that holds the directory payload starts.
    pub payload_offset: usize,
    /// The embedded bundle. Its offsets count from `payload_offset`.
    pub directory_bundle: Bundle,
}

/// `IndexTables` as a mathematical value.
pub struct IndexTablesView {
    pub index: IndexView,
    pub directories: Seq<DirectoryInfo>,
    pub payload_offset: int,
    pub directory_bundle: BundleView,
}

impl View for IndexTables {
    type V = IndexTablesView;

    open spec fn view(&self) -> IndexTablesView {
        IndexTablesView {
            index: self.index@,
            directories: self.directories@,
            payload_offset: self.payload_offset as int,
            directory_bundle: self.directory_bundle@,
        }
    }
}

/// The record count stored at `at`; a negative count announces more than any
/// input holds.
pub open spec fn table_count(data: Seq<u8>, at: int) -> Option<nat> {
    if fits(data.len(), at, 4) && le_i32_at(data, at) >= 0 {
        Some(le_i32_at(data, at) as nat)
    } else {
        None
    }
}

/// The bundle record at `at` and the offset behind it: a length-prefixed name
/// and the bundle's uncompressed size.
pub open spec fn bundle_record(data: Seq<u8>, at: int) -> Option<(BundleInfoView, int)> {
    match table_count(data, at) {
        None => None,
        Some(name_len) => if fits(data.len(), at + 4, name_len + 4 as int) {
            Some(
                (
                    BundleInfoView {
                        name: utf8_lossy_text(data.subrange(at + 4, at + 4 + name_len)),
                        uncompressed_size: le_u32_at(data, at + 4 + name_len) as u32,
                    },
                    at + 8 + name_len,
                ),
            )
        } else {
            None
        },
    }
}

/// The first `n` bundle records from `at` on and the offset behind them.
pub open spec fn bundle_records(data: Seq<u8>, at: int, n: nat) -> Option<
    (Seq<BundleInfoView>, int),
>
    decreases n,
{
    if n == 0 {
        Some((Seq::empty(), at))
    } else {
        match bundle_records(data, at, (n - 1) as nat) {
            None => None,
            Some((records, next)) => match bundle_record(data, next) {
                None => None,
                Some((record, end)) => Some((records.push(record), end)),
            },
        }
    }
}

/// The file record at `at`; its path is not known yet.
pub open spec fn file_record(data: Seq<u8>, at: int) -> FileInfoView {
    FileInfoView {
        path_hash: le_u64_at(data, at) as u64,
        bundle_index: le_u32_at(data, at + 8) as u32,
        file_offset: le_u32_at(data, at + 12) as u32,
        file_size: le_u32_at(data, at + 16) as u32,
        path: Seq::empty(),
    }
}

/// The file table made of the first `n` records from `at` on. A record whose
/// hash occurred before replaces the earlier one.
pub open spec fn file_records(data: Seq<u8>, at: int, n: nat) -> Map<u64, FileInfoView>
    decreases n,
{
    if n == 0 {
        Map::empty()
    } else {
        let record = file_record(data, at + RECORD_LEN * (n - 1));
        file_records(data, at, (n - 1) as nat).insert(record.path_hash, record)
    }
}

/// The directory record at `at`.
pub open spec fn directory_record(data: Seq<u8>, at: int) -> DirectoryInfo {
    DirectoryInfo {
        path_hash: le_u64_at(data, at) as u64,
        offset: le_u32_at(data, at + 8) as u32,
        size: le_u32_at(data, at + 12) as u32,
        recursive_size: le_u32_at(data, at + 16) as u32,
    }
}

/// The count at `at` if the `count` fixed-size records behind it all lie
/// inside `data`.
pub open spec fn fixed_table_count(data: Seq<u8>, at: int) -> Option<nat> {
    match table_count(data, at) {
        None => None,
        Some(count) => if fits(data.len(), at + 4, RECORD_LEN * count) {
            Some(count)
        } else {
            None
        },
    }
}

/// What follows the three tables in `data` when they end at `payload_offset`:
/// the embedded bundle.
pub open spec fn embedded_bundle(data: Seq<u8>, payload_offset: int) -> Seq<u8> {
    data.subrange(payload_offset, data.len() as int)
}

/// The three tables at the head of `data` and the header behind them as far
/// as it can be read, or nothing when a table announces more than `data`
/// holds.
pub open spec fn parse_tables(data: Seq<u8>) -> Option<IndexTablesView> {
    match table_count(data, 0) {
        None => None,
        Some(bundle_count) => match bundle_records(data, 4, bundle_count) {
            None => None,
            Some((bundles, files_at)) => match fixed_table_count(data, files_at) {
                None => None,
                Some(file_count) => {
                    let dirs_at = files_at + 4 + RECORD_LEN * file_count;
                    match fixed_table_count(data, dirs_at) {
                        None => None,
                        Some(dir_count) => Some(
                            IndexTablesView {
                                index: IndexView {
                                    bundles,
                                    files: file_records(data, files_at + 4, file_count),
                                },
                                directories: Seq::new(
                                    dir_count,
                                    |i: int| directory_record(data, dirs_at + 4 + RECORD_LEN * i),
                                ),
                                payload_offset: dirs_at + 4 + RECORD_LEN * dir_count,
                                directory_bundle: parse_header(
                                    embedded_bundle(
                                        data,
                                        dirs_at + 4 + RECORD_LEN * dir_count,
                                    ),
                                ),
                            },
                        ),
                    }
                },
            },
        },
    }
}

/// What the head of the index `data` holds. A table that announces more than
/// `data` holds is an error, and so is an embedded bundle whose header or
/// block table is cut short.
pub open spec fn parse_index(data: Seq<u8>) -> Result<IndexTablesView, IndexError> {
    match parse_tables(data) {
        None => Err(IndexError::Truncated),
        Some(tables) => if header_complete(embedded_bundle(data, tables.payload_offset)) {
            Ok(tables)
        } else {
            Err(IndexError::DirectoryBundle(BundleError::UnexpectedEof))
        },
    }
}

/// Once a bundle record is cut short, so is every longer table.
proof fn lemma_bundle_records_cut_short(data: Seq<u8>, at: int, n: nat, m: nat)
    requires
        n <= m,
        bundle_records(data, at, n) is None,
    ensures
        bundle_records(data, at, m) is None,
    decreases m,
{
    if n < m {
        lemma_bundle_records_cut_short(data, at, n, (m - 1) as nat);
    }
}

/// Reads the record count stored at `at`.
fn read_count(data: &[u8], at: usize) -> (r: Option<usize>)
    requires
        at <= data@.len(),
    ensures
        r is Some <==> table_count(data@, at as int) is Some,
        r is Some ==> r.unwrap() == table_count(data@, at as int).unwrap(),
        r is Some ==> at + 4 <= data@.len(),
{
    if !has_room(data, at, 4) {
        return None;
    }
    let count = i32_at(data, at);
    if count < 0 {
        None
    } else {
        Some(count as usize)
    }
}

/// Reads the count stored at `at` and checks that as many fixed-size records
/// follow it.
fn read_fixed_count(data: &[u8], at: usize) -> (r: Option<usize>)
    requires
        at <= data@.len(),
    ensures
        r is Some <==> fixed_table_count(data@, at as int) is Some,
        r is Some ==> r.unwrap() == fixed_table_count(data@, at as int).unwrap(),
        r is Some ==> at + 4 + RECORD_LEN * r.unwrap() <= data@.len(),
{
    match read_count(data, at) {
        None => None,
        Some(count) => {
            assert(data@.len() == data.len());
            let room = (data.len() - (at + 4)) as u64;
            if (RECORD_LEN as u64) * (count as u64) <= room {
                Some(count)
            } else {
                None
            }
        },
    }
}

impl Index {
    /// Reads the head of a decompressed index: the bundle table, the file
    /// table, the directory table and the header of the bundle that follows
    /// them. `payload_offset` says where that bundle starts. A table or a
    /// header that is cut short is an error.
    pub fn read(data: &[u8]) -> (r: Result<IndexTables, IndexError>)
        ensures
            match r {
                Ok(tables) => parse_index(data@) == Ok::<IndexTablesView, IndexError>(tables@)
                    && tables.payload_offset <= data@.len(),
                Err(e) => parse_index(data@) == Err::<IndexTablesView, IndexError>(e),
            },
    {
        assert(data@.len() == data.len());
        let bundle_count = match read_count(data, 0) {
            Some(count) => count,
            None => { return Err(IndexError::Truncated); },
        };
        let mut at: usize = 4;
        let mut bundles: Vec<BundleInfo> = Vec::new();
        let mut k: usize = 0;
        while k < bundle_count
            invariant
                data@.len() == data.len(),
                k <= bundle_count,
                at <= data@.len(),
                table_count(data@, 0) == Some(bundle_count as nat),
                bundle_records(data@, 4, k as nat) == Some((bundle_views(bundles@), at as int)),
            decreases bundle_count - k,
        {
            proof {
                if bundle_record(data@, at as int) is None {
                    lemma_bundle_records_cut_short(data@, 4, (k + 1) as nat, bundle_count as nat);
                }
            }
            let name_len = match read_count(data, at) {
                Some(len) => len,
                None => { return Err(IndexError::Truncated); },
            };
            let name_at = at + 4;
            if name_len > data.len() - name_at || data.len() - name_at - name_len < 4 {
                return Err(IndexError::Truncated);
            }
            let name = utf8_lossy(&data[name_at..name_at + name_len]);
            let uncompressed_size = u32_at(data, name_at + name_len);
            let ghost before = bundle_views(bundles@);
            let info = BundleInfo { name, uncompressed_size };
            bundles.push(info);
            proof {
                assert(bundle_views(bundles@) =~= before.push(info@));
            }
            at = name_at + name_len + 4;
            k += 1;
        }
        let files_at = at;
        let file_count = match read_fixed_count(data, files_at) {
            Some(count) => count,
            None => { return Err(IndexError::Truncated); },
        };
        let mut files: HashMap<u64, FileInfo> = HashMap::with_capacity(file_count);
        let mut k: usize = 0;
        assert(file_views(files@) =~= Map::<u64, FileInfoView>::empty());
        while k < file_count
            invariant
                data@.len() == data.len(),
                k <= file_count,
                files_at + 4 + RECORD_LEN * file_count <= data@.len(),
                file_views(files@) == file_records(data@, files_at + 4, k as nat),
            decreases file_count - k,
        {
            let record_at = files_at + 4 + RECORD_LEN * k;
            let path_hash = u64_at(data, record_at);
            let info = FileInfo {
                path_hash,
                bundle_index: u32_at(data, record_at + 8),
                file_offset: u32_at(data, record_at + 12),
                file_size: u32_at(data, record_at + 16),
                path: String::new(),
            };
            let ghost before = files@;
            files.insert(path_hash, info);
            proof {
                assert(info@ == file_record(data@, record_at as int));
                assert(file_views(files@) =~= file_views(before).insert(path_hash, info@));
            }
            k += 1;
        }
        let dirs_at = files_at + 4 + RECORD_LEN * file_count;
        let dir_count = match read_fixed_count(data, dirs_at) {
            Some(count) => count,
            None => { return Err(IndexError::Truncated); },
        };
        let mut directories: Vec<DirectoryInfo> = Vec::with_capacity(dir_count);
        let mut k: usize = 0;
        while k < dir_count
            invariant
                data@.len() == data.len(),
                k <= dir_count,
                dirs_at + 4 + RECORD_LEN * dir_count <= data@.len(),
                directories@.len() == k,
                forall|i: int|
                    0 <= i < k ==> directories@[i] == directory_record(
                        data@,
                        dirs_at + 4 + RECORD_LEN * i,
                    ),
            decreases dir_count - k,
        {
            let record_at = dirs_at + 4 + RECORD_LEN * k;
            directories.push(
                DirectoryInfo {
                    path_hash: u64_at(data, record_at),
                    offset: u32_at(data, record_at + 8),
                    size: u32_at(data, record_at + 12),
                    recursive_size: u32_at(data, record_at + 16),
                },
            );
            k += 1;
        }
        let payload_offset = dirs_at + 4 + RECORD_LEN * dir_count;
        let directory_bundle = match Bundle::read_header(&data[payload_offset..data.len()]) {
            Ok(bundle) => bundle,
            Err(e) => {
                proof {
                    assert(directories@ =~= parse_tables(data@).unwrap().directories);
                }
                return Err(IndexError::DirectoryBundle(e));
            },
        };
        let tables = IndexTables {
            index: Index { bundles, files },
            directories,
            payload_offset,
            directory_bundle,
        };
        proof {
            assert(tables@.directories =~= parse_tables(data@).unwrap().directories);
        }
        Ok(tables)
    }
}

/// The algorithm of an archive with the directory table `directories`: the
/// hash of the first directory decides, and without directories nothing is
/// known.
pub open spec fn select_algorithm(directories: Seq<DirectoryInfo>) -> HashAlgorithm {
    if directories.len() == 0 {
        HashAlgorithm::Unknown
    } else {
        algorithm_for_root(directories[0].path_hash)
    }
}

/// The file table after `path` has been looked up: the first candidate hash
/// that is a key gets the text of `path`; without a hit nothing changes.
pub open spec fn with_path(
    files: Map<u64, FileInfoView>,
    algorithm: HashAlgorithm,
    path: Seq<u8>,
) -> Map<u64, FileInfoView> {
    match first_hit(files.dom(), algorithm.candidates(path)) {
        Some(hash) => files.insert(
            hash,
            FileInfoView { path: utf8_lossy_text(path), ..files[hash] },
        ),
        None => files,
    }
}

/// The file table after each of `paths` has been looked up, in order.
pub open spec fn with_paths(
    files: Map<u64, FileInfoView>,
    algorithm: HashAlgorithm,
    paths: Seq<Seq<u8>>,
) -> Map<u64, FileInfoView>
    decreases paths.len(),
{
    if paths.len() == 0 {
        files
    } else {
        with_path(with_paths(files, algorithm, paths.drop_last()), algorithm, paths.last())
    }
}

/// The file paths in the span of `directory`. A span that does not lie inside
/// the payload holds none.
pub open spec fn span_paths(dir_data: Seq<u8>, directory: DirectoryInfo) -> Seq<Seq<u8>> {
    if directory.offset < dir_data.len() && directory.offset + directory.size <= dir_data.len() {
        decode_paths(
            dir_data.subrange(directory.offset as int, directory.offset + directory.size),
        )
    } else {
        Seq::empty()
    }
}

/// The file table after the spans of all `directories` have been walked, in
/// order.
pub open spec fn resolved_files(
    files: Map<u64, FileInfoView>,
    algorithm: HashAlgorithm,
    directories: Seq<DirectoryInfo>,
    dir_data: Seq<u8>,
) -> Map<u64, FileInfoView>
    decreases directories.len(),
{
    if directories.len() == 0 {
        files
    } else {
        with_paths(
            resolved_files(files, algorithm, directories.drop_last(), dir_data),
            algorithm,
            span_paths(dir_data, directories.last()),
        )
    }
}

/// Whether `after` holds the files of `before`, each unchanged but for its
/// path.
pub open spec fn differs_in_paths_only(
    before: Map<u64, FileInfoView>,
    after: Map<u64, FileInfoView>,
) -> bool {
    &&& after.dom() == before.dom()
    &&& forall|hash: u64| #[trigger]
        before.contains_key(hash) ==> after[hash] == (FileInfoView {
            path: after[hash].path,
            ..before[hash]
        })
}

/// Whether every file is kept under its own path hash.
pub open spec fn keyed_by_hash(files: Map<u64, FileInfoView>) -> bool {
    forall|hash: u64| #[trigger] files.contains_key(hash) ==> files[hash].path_hash == hash
}

/// The file table of an index keeps every file under its own path hash.
pub proof fn lemma_file_records_keyed_by_hash(data: Seq<u8>, at: int, n: nat)
    ensures
        keyed_by_hash(file_records(data, at, n)),
    decreases n,
{
    if n > 0 {
        lemma_file_records_keyed_by_hash(data, at, (n - 1) as nat);
    }
}

/// Looking paths up changes nothing of the file table but paths.
pub proof fn lemma_with_paths_changes_paths_only(
    files: Map<u64, FileInfoView>,
    algorithm: HashAlgorithm,
    paths: Seq<Seq<u8>>,
)
    ensures
        differs_in_paths_only(files, with_paths(files, algorithm, paths)),
    decreases paths.len(),
{
    if paths.len() > 0 {
        let before = with_paths(files, algorithm, paths.drop_last());
        lemma_with_paths_changes_paths_only(files, algorithm, paths.drop_last());
        lemma_first_hit_is_key(before.dom(), algorithm.candidates(paths.last()));
        let after = with_path(before, algorithm, paths.last());
        assert(after.dom() =~= before.dom());
    }
}

/// Walking the directory payload changes nothing of the file table but
/// paths: no file comes or goes, and each stays where it was in its bundle.
pub proof fn lemma_resolving_changes_paths_only(
    files: Map<u64, FileInfoView>,
    algorithm: HashAlgorithm,
    directories: Seq<DirectoryInfo>,
    dir_data: Seq<u8>,
)
    ensures
        differs_in_paths_only(files, resolved_files(files, algorithm, directories, dir_data)),
    decreases directories.len(),
{
    if directories.len() > 0 {
        let before = resolved_files(files, algorithm, directories.drop_last(), dir_data);
        lemma_resolving_changes_paths_only(files, algorithm, directories.drop_last(), dir_data);
        lemma_with_paths_changes_paths_only(
            before,
            algorithm,
            span_paths(dir_data, directories.last()),
        );
    }
}

/// An archive whose first directory carries the Murmur root hash has every
/// path looked up under its MurmurHash64A and under nothing else.
pub proof fn lemma_murmur_root_selects_murmur(directories: Seq<DirectoryInfo>, path: Seq<u8>)
    requires
        directories.len() > 0,
        directories[0].path_hash == crate::bundles::hash::MURMUR_ROOT_HASH,
    ensures
        select_algorithm(directories) == HashAlgorithm::Murmur64A,
        select_algorithm(directories).candidates(path) == seq![murmur64a(path)],
{
}

/// Looks `path` up in the file table: the first candidate hash of the
/// algorithm that is a key.
pub fn find_hash(files: &HashMap<u64, FileInfo>, algorithm: HashAlgorithm, path: &[u8]) -> (r:
    Option<u64>)
    ensures
        r == first_hit(files@.dom(), algorithm.candidates(path@)),
{
    let ghost keys = files@.dom();
    match algorithm {
        HashAlgorithm::Murmur64A => {
            let hash = murmur_hash64a(path);
            proof {
                let c = algorithm.candidates(path@);
                reveal_with_fuel(first_hit, 2);
                assert(c.drop_first() =~= Seq::<u64>::empty());
            }
            if files.contains_key(&hash) {
                Some(hash)
            } else {
                None
            }
        },
        HashAlgorithm::Fnv1a => {
            proof {
                let c = algorithm.candidates(path@);
                reveal_with_fuel(first_hit, 3);
                assert(c.drop_first() =~= seq![c[1]]);
                assert(c.drop_first().drop_first() =~= Seq::<u64>::empty());
            }
            let hash = fnv1a64(path);
            if files.contains_key(&hash) {
                return Some(hash);
            }
            let lower = to_ascii_lowercase(path);
            let hash_lower = fnv1a64(lower.as_slice());
            if files.contains_key(&hash_lower) {
                Some(hash_lower)
            } else {
                None
            }
        },
        HashAlgorithm::Unknown => {
            proof {
                let c = algorithm.candidates(path@);
                let c1 = c.drop_first();
                let c2 = c1.drop_first();
                let c3 = c2.drop_first();
                reveal_with_fuel(first_hit, 5);
                assert(c1 =~= seq![c[1], c[2], c[3]]);
                assert(c2 =~= seq![c[2], c[3]]);
                assert(c3 =~= seq![c[3]]);
                assert(c3.drop_first() =~= Seq::<u64>::empty());
            }
            let hash = murmur_hash64a(path);
            if files.contains_key(&hash) {
                return Some(hash);
            }
            let lower = to_ascii_lowercase(path);
            let hash_lower = murmur_hash64a(lower.as_slice());
            if files.contains_key(&hash_lower) {
                return Some(hash_lower);
            }
            let fnv = fnv1a64(path);
            if files.contains_key(&fnv) {
                return Some(fnv);
            }
            let fnv_lower = fnv1a64(lower.as_slice());
            if files.contains_key(&fnv_lower) {
                Some(fnv_lower)
            } else {
                None
            }
        },
    }
}

impl IndexTablesView {
    /// The index once the directory payload `dir_data` has been walked.
    pub open spec fn resolved(self, dir_data: Seq<u8>) -> IndexView {
        IndexView {
            bundles: self.index.bundles,
            files: resolved_files(
                self.index.files,
                select_algorithm(self.directories),
                self.directories,
                dir_data,
            ),
        }
    }
}

impl IndexTablesView {
    /// The index once the embedded bundle has been decompressed: with the
    /// paths that its payload encodes. A bundle that could not be
    /// decompressed fails the index.
    pub open spec fn finished(self, dir_data: Result<Seq<u8>, BundleError>) -> Result<
        IndexView,
        IndexError,
    > {
        match dir_data {
            Ok(payload) => Ok(self.resolved(payload)),
            Err(e) => Err(IndexError::DirectoryBundle(e)),
        }
    }
}

impl Index {
    /// Looks `path` up in the file table and, on a hit, stores its text in
    /// the file's entry. A path that matches no file is dropped.
    pub fn assign_path(files: &mut HashMap<u64, FileInfo>, algorithm: HashAlgorithm, path: &[u8])
        ensures
            file_views(final(files)@) == with_path(file_views(old(files)@), algorithm, path@),
    {
        let ghost before = files@;
        assert(file_views(before).dom() =~= before.dom());
        match find_hash(files, algorithm, path) {
            None => {},
            Some(hash) => {
                proof {
                    lemma_first_hit_is_key(before.dom(), algorithm.candidates(path@));
                }
                let (bundle_index, file_offset, file_size, path_hash) = match files.get(&hash) {
                    Some(info) => (
                        info.bundle_index,
                        info.file_offset,
                        info.file_size,
                        info.path_hash,
                    ),
                    None => { return ; },
                };
                let info = FileInfo {
                    path_hash,
                    bundle_index,
                    file_offset,
                    file_size,
                    path: utf8_lossy(path),
                };
                files.insert(hash, info);
                assert(file_views(files@) =~= file_views(before).insert(hash, info@));
            },
        }
    }

    /// Walks the span of each directory in the payload `dir_data` and stores
    /// every file path that it encodes in the entry of the file it names.
    pub fn parse_paths(
        directories: &[DirectoryInfo],
        dir_data: &[u8],
        files: &mut HashMap<u64, FileInfo>,
        hash_algo: HashAlgorithm,
    )
        ensures
            file_views(final(files)@) == resolved_files(
                file_views(old(files)@),
                hash_algo,
                directories@,
                dir_data@,
            ),
    {
        let ghost start = file_views(files@);
        let mut d: usize = 0;
        assert(directories@.subrange(0, 0) =~= Seq::<DirectoryInfo>::empty());
        while d < directories.len()
            invariant
                d <= directories@.len(),
                dir_data@.len() == dir_data.len(),
                file_views(files@) == resolved_files(
                    start,
                    hash_algo,
                    directories@.subrange(0, d as int),
                    dir_data@,
                ),
            decreases directories@.len() - d,
        {
            let directory = directories[d];
            let ghost before = file_views(files@);
            proof {
                let upto = directories@.subrange(0, d + 1);
                assert(upto.drop_last() =~= directories@.subrange(0, d as int));
                assert(upto.last() == directory);
            }
            let offset = directory.offset as u64;
            let end = offset + directory.size as u64;
            if offset < dir_data.len() as u64 && end <= dir_data.len() as u64 {
                let paths = read_paths(&dir_data[offset as usize..end as usize]);
                let mut p: usize = 0;
                assert(byte_views(paths@).subrange(0, 0) =~= Seq::<Seq<u8>>::empty());
                while p < paths.len()
                    invariant
                        p <= paths@.len(),
                        file_views(files@) == with_paths(
                            before,
                            hash_algo,
                            byte_views(paths@).subrange(0, p as int),
                        ),
                    decreases paths@.len() - p,
                {
                    proof {
                        let upto = byte_views(paths@).subrange(0, p + 1);
                        assert(upto.drop_last() =~= byte_views(paths@).subrange(0, p as int));
                        assert(upto.last() == paths@[p as int]@);
                    }
                    Index::assign_path(files, hash_algo, paths[p].as_slice());
                    p += 1;
                }
                assert(byte_views(paths@).subrange(0, paths@.len() as int) =~= byte_views(paths@));
            }
            d += 1;
        }
        assert(directories@.subrange(0, directories@.len() as int) =~= directories@);
    }
}

impl IndexTables {
    /// The hash algorithm that the directory table announces.
    pub fn hash_algorithm(&self) -> (algorithm: HashAlgorithm)
        ensures
            algorithm == select_algorithm(self.directories@),
    {
        if self.directories.len() == 0 {
            HashAlgorithm::Unknown
        } else {
            HashAlgorithm::from_root_hash(self.directories[0].path_hash)
        }
    }

    /// Completes the index. `dir_data` is how decompressing the embedded
    /// bundle ended: its payload, or the error that stopped it. With the
    /// payload the paths are resolved; the error fails the index, and no part
    /// of it is handed out.
    pub fn finish(self, dir_data: Result<&[u8], BundleError>) -> (r: Result<Index, IndexError>)
        ensures
            self@.finished(
                match dir_data {
                    Ok(payload) => Ok(payload@),
                    Err(e) => Err(e),
                },
            ) == match r {
                Ok(index) => Ok::<IndexView, IndexError>(index@),
                Err(e) => Err(e),
            },
    {
        match dir_data {
            Ok(payload) => Ok(self.resolve(payload)),
            Err(e) => Err(IndexError::DirectoryBundle(e)),
        }
    }

    /// Completes the index with the paths that the decompressed directory
    /// payload `dir_data` encodes.
    pub fn resolve(self, dir_data: &[u8]) -> (index: Index)
        ensures
            index@ == self@.resolved(dir_data@),
    {
        let algorithm = self.hash_algorithm();
        let mut index = self.index;
        Index::parse_paths(self.directories.as_slice(), dir_data, &mut index.files, algorithm);
        index
    }
}

} // verus!
