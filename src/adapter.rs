//! The host filesystem callbacks' own decisions: path translation, attribute
//! mapping, how an open is answered, and what the volume reports.
use vstd::prelude::*;
use crate::cache::{Cache, without_key};
use crate::models::{FileHandle, FileInfo, Timestamp};
use crate::responses::FreeSpace;
use crate::utf8_text::string_from_chars;

verus! {

/// Host attribute flags.
pub const FILE_ATTRIBUTE_DIRECTORY: u32 = 0x10;

pub const FILE_ATTRIBUTE_REPARSE_POINT: u32 = 0x400;

pub const FILE_ATTRIBUTE_RECALL_ON_OPEN: u32 = 0x40000;

pub const FILE_ATTRIBUTE_RECALL_ON_DATA_ACCESS: u32 = 0x400000;

/// Host volume flags.
pub const FILE_CASE_SENSITIVE_SEARCH: u32 = 0x1;

pub const FILE_CASE_PRESERVED_NAMES: u32 = 0x2;

pub const FILE_UNICODE_ON_DISK: u32 = 0x4;

pub const FILE_PERSISTENT_ACLS: u32 = 0x8;

pub const FILE_NAMED_STREAMS: u32 = 0x40000;

/// Open dispositions that open an existing file.
pub const FILE_OPEN: u32 = 1;

pub const FILE_OPEN_IF: u32 = 3;

/// Time-to-live and capacity of the directory listing cache (milliseconds).
pub const DIRECTORY_CACHE_TTL_MS: u64 = 1000;

pub const DIRECTORY_CACHE_SIZE: usize = 50;

/// Time-to-live and capacity of the stat cache (milliseconds).
pub const STAT_CACHE_TTL_MS: u64 = 1000000;

pub const STAT_CACHE_SIZE: usize = 1000;

/// The host path with every backslash turned into a slash.
pub open spec fn device_path(p: Seq<char>) -> Seq<char> {
    p.map_values(|c: char| if c == '\\' { '/' } else { c })
}

/// Translates a host path into the device's form.
pub fn convert_file_name(win_file_name: &str) -> (r: String)
    ensures
        r@ == device_path(win_file_name@),
{
    let n = win_file_name.unicode_len();
    let mut chars: Vec<char> = Vec::new();
    let mut i: usize = 0;
    while i < n
        invariant
            n == win_file_name@.len(),
            i <= n,
            chars@ == device_path(win_file_name@.subrange(0, i as int)),
        decreases n - i,
    {
        let c = win_file_name.get_char(i);
        chars.push(if c == '\\' { '/' } else { c });
        i = i + 1;
        assert(chars@ =~= device_path(win_file_name@.subrange(0, i as int)));
    }
    assert(win_file_name@.subrange(0, n as int) =~= win_file_name@);
    string_from_chars(&chars)
}

pub open spec fn file_type(mode: u32) -> u32 {
    mode & 0xF000u32
}

/// The host attributes of a file with this mode: always the recall hints,
/// plus directory and reparse point for a symbolic link, directory for a
/// directory.
pub open spec fn attributes_of(mode: u32) -> u32 {
    let base = FILE_ATTRIBUTE_RECALL_ON_DATA_ACCESS | FILE_ATTRIBUTE_RECALL_ON_OPEN;
    if file_type(mode) == 0xA000u32 {
        base | FILE_ATTRIBUTE_DIRECTORY | FILE_ATTRIBUTE_REPARSE_POINT
    } else if file_type(mode) == 0x4000u32 {
        base | FILE_ATTRIBUTE_DIRECTORY
    } else {
        base
    }
}

/// Approximates the file's mode with host attributes.
pub fn convert_attributes(file: &FileInfo) -> (r: u32)
    ensures
        r == attributes_of(file.mode),
{
    let mut attributes = FILE_ATTRIBUTE_RECALL_ON_DATA_ACCESS | FILE_ATTRIBUTE_RECALL_ON_OPEN;
    let kind = file.mode & 0xF000u32;
    if kind == 0xA000u32 {
        attributes = attributes | FILE_ATTRIBUTE_DIRECTORY | FILE_ATTRIBUTE_REPARSE_POINT;
    } else if kind == 0x4000u32 {
        attributes = attributes | FILE_ATTRIBUTE_DIRECTORY;
    }
    attributes
}

/// A file is shown as a directory exactly when it is a directory or a
/// symbolic link, and as a reparse point exactly when it is a symbolic link.
pub proof fn lemma_attributes(mode: u32)
    ensures
        (attributes_of(mode) & FILE_ATTRIBUTE_DIRECTORY != 0) <==> (file_type(mode) == 0x4000u32
            || file_type(mode) == 0xA000u32),
        (attributes_of(mode) & FILE_ATTRIBUTE_REPARSE_POINT != 0) <==> file_type(mode)
            == 0xA000u32,
{
    let t = mode & 0xF000u32;
    assert(((0x400000u32 | 0x40000u32) | 0x10u32 | 0x400u32) & 0x10u32 != 0) by (bit_vector);
    assert(((0x400000u32 | 0x40000u32) | 0x10u32 | 0x400u32) & 0x400u32 != 0) by (bit_vector);
    assert(((0x400000u32 | 0x40000u32) | 0x10u32) & 0x10u32 != 0) by (bit_vector);
    assert(((0x400000u32 | 0x40000u32) | 0x10u32) & 0x400u32 == 0) by (bit_vector);
    assert((0x400000u32 | 0x40000u32) & 0x10u32 == 0) by (bit_vector);
    assert((0x400000u32 | 0x40000u32) & 0x400u32 == 0) by (bit_vector);
}

/// What an open gives the host: the handle kept in the open's context slot
/// (zero for none), whether it is a directory, and whether it was created.
#[derive(Clone, Copy, Debug, PartialEq, Eq, Structural)]
pub struct CreateFileInfo {
    pub context: FileHandle,
    pub is_dir: bool,
    pub new_file_created: bool,
}

/// The answer to an open of a directory, and to the dispositions that are
/// not served.
pub open spec fn directory_open() -> CreateFileInfo {
    CreateFileInfo { context: 0, is_dir: true, new_file_created: true }
}

/// The next step of an open.
#[derive(Clone, Copy, Debug)]
pub enum CreateStep {
    /// Stat the path, then call `create_file_after_stat`.
    Stat,
    /// Open the file on the device, then call `create_file_after_open`.
    Open,
    /// Answer the host.
    Done(core::result::Result<CreateFileInfo, u32>),
}

/// The first step of an open with this disposition: only opens of an existing
/// file are served; any other disposition is answered like a directory.
pub fn create_file_start(create_disposition: u32) -> (r: CreateStep)
    ensures
        create_disposition == FILE_OPEN || create_disposition == FILE_OPEN_IF ==> r
            == CreateStep::Stat,
        !(create_disposition == FILE_OPEN || create_disposition == FILE_OPEN_IF) ==> r
            == CreateStep::Done(Ok(directory_open())),
{
    if create_disposition == FILE_OPEN || create_disposition == FILE_OPEN_IF {
        CreateStep::Stat
    } else {
        CreateStep::Done(Ok(CreateFileInfo { context: 0, is_dir: true, new_file_created: true }))
    }
}

/// The step after the path was stated: a failure is passed on, a directory
/// (or symbolic link) is answered without a handle, a file is opened.
pub fn create_file_after_stat(stat: &core::result::Result<FileInfo, u32>) -> (r: CreateStep)
    ensures
        match stat {
            Err(s) => r == CreateStep::Done(Err(*s)),
            Ok(f) => if attributes_of(f.mode) & FILE_ATTRIBUTE_DIRECTORY
                == FILE_ATTRIBUTE_DIRECTORY {
                r == CreateStep::Done(Ok(directory_open()))
            } else {
                r == CreateStep::Open
            },
        },
{
    match stat {
        Err(s) => CreateStep::Done(Err(*s)),
        Ok(f) => {
            if convert_attributes(f) & FILE_ATTRIBUTE_DIRECTORY == FILE_ATTRIBUTE_DIRECTORY {
                CreateStep::Done(
                    Ok(CreateFileInfo { context: 0, is_dir: true, new_file_created: true }),
                )
            } else {
                CreateStep::Open
            }
        },
    }
}

/// The answer once the file was opened on the device.
pub fn create_file_after_open(open: core::result::Result<FileHandle, u32>) -> (r:
    core::result::Result<CreateFileInfo, u32>)
    ensures
        match open {
            Ok(h) => r == Ok::<CreateFileInfo, u32>(
                CreateFileInfo { context: h, is_dir: false, new_file_created: false },
            ),
            Err(s) => r == Err::<CreateFileInfo, u32>(s),
        },
{
    match open {
        Ok(handle) => Ok(CreateFileInfo { context: handle, is_dir: false, new_file_created: false }),
        Err(s) => Err(s),
    }
}

/// A close needs the device only when the context slot holds a handle.
pub fn close_needs_device(context: FileHandle) -> (r: bool)
    ensures
        r == (context != 0),
{
    context != 0
}

/// What the host learns of a file.
#[derive(Clone, Copy, Debug, PartialEq, Eq, Structural)]
pub struct FileInformation {
    pub attributes: u32,
    pub creation_time: Timestamp,
    pub last_access_time: Timestamp,
    pub last_write_time: Timestamp,
    pub file_size: u64,
    pub number_of_links: u32,
    pub file_index: u64,
}

pub fn file_information(file: &FileInfo) -> (r: FileInformation)
    ensures
        r == (FileInformation {
            attributes: attributes_of(file.mode),
            creation_time: file.creation_time,
            last_access_time: file.last_accessed,
            last_write_time: file.last_modified,
            file_size: file.size,
            number_of_links: 0,
            file_index: file.ino,
        }),
{
    FileInformation {
        attributes: convert_attributes(file),
        creation_time: file.creation_time,
        last_access_time: file.last_accessed,
        last_write_time: file.last_modified,
        file_size: file.size,
        number_of_links: 0,
        file_index: file.ino,
    }
}

/// One entry of a directory listing as the host sees it.
pub struct FindData {
    pub attributes: u32,
    pub creation_time: Timestamp,
    pub last_access_time: Timestamp,
    pub last_write_time: Timestamp,
    pub file_size: u64,
    pub file_name: String,
}

pub fn find_data(file: &FileInfo) -> (r: FindData)
    ensures
        r.attributes == attributes_of(file.mode),
        r.creation_time == file.creation_time,
        r.last_access_time == file.last_accessed,
        r.last_write_time == file.last_modified,
        r.file_size == file.size,
        r.file_name@ == file.name@,
{
    FindData {
        attributes: convert_attributes(file),
        creation_time: file.creation_time,
        last_access_time: file.last_accessed,
        last_write_time: file.last_modified,
        file_size: file.size,
        file_name: file.name.clone(),
    }
}

/// Disk space as the host sees it.
#[derive(Clone, Copy, Debug, PartialEq, Eq, Structural)]
pub struct DiskSpaceInfo {
    pub byte_count: u64,
    pub free_byte_count: u64,
    pub available_byte_count: u64,
}

/// All free space is reported as available.
pub fn disk_space_info(free_space: FreeSpace) -> (r: DiskSpaceInfo)
    ensures
        r == (DiskSpaceInfo {
            byte_count: free_space.total_bytes,
            free_byte_count: free_space.free_bytes,
            available_byte_count: free_space.free_bytes,
        }),
{
    DiskSpaceInfo {
        byte_count: free_space.total_bytes,
        free_byte_count: free_space.free_bytes,
        available_byte_count: free_space.free_bytes,
    }
}

/// What the volume reports of itself.
pub struct VolumeInfo {
    pub name: String,
    pub serial_number: u32,
    pub max_component_length: u32,
    pub fs_flags: u32,
    pub fs_name: String,
}

pub open spec fn volume_flags() -> u32 {
    FILE_CASE_PRESERVED_NAMES | FILE_CASE_SENSITIVE_SEARCH | FILE_UNICODE_ON_DISK
        | FILE_PERSISTENT_ACLS | FILE_NAMED_STREAMS
}

/// The volume is named after the device and declares itself NTFS, so that the
/// host turns on all its features; components may be as long as the device
/// allows.
pub fn volume_information(volume_name: &String) -> (r: VolumeInfo)
    ensures
        r.name@ == volume_name@,
        r.serial_number == 0,
        r.max_component_length == 4095,
        r.fs_flags == volume_flags(),
        r.fs_name@ == "NTFS"@,
{
    VolumeInfo {
        name: volume_name.clone(),
        serial_number: 0,
        max_component_length: 4095,
        fs_flags: FILE_CASE_PRESERVED_NAMES | FILE_CASE_SENSITIVE_SEARCH | FILE_UNICODE_ON_DISK
            | FILE_PERSISTENT_ACLS | FILE_NAMED_STREAMS,
        fs_name: "NTFS".to_owned(),
    }
}

/// The caches of one mounted volume: listings by directory and stats by
/// path, each holding a result or the status code of a failure.
pub struct VolumeCaches {
    pub directory_cache: Cache<core::result::Result<Vec<FileInfo>, u32>>,
    pub stat_cache: Cache<core::result::Result<FileInfo, u32>>,
}

impl VolumeCaches {
    pub open spec fn well_formed(&self) -> bool {
        self.directory_cache.well_formed() && self.stat_cache.well_formed()
    }

    pub fn new() -> (r: Self)
        ensures
            r.well_formed(),
            r.directory_cache.view().len() == 0,
            r.directory_cache.ttl() == DIRECTORY_CACHE_TTL_MS,
            r.directory_cache.capacity() == DIRECTORY_CACHE_SIZE,
            r.stat_cache.view().len() == 0,
            r.stat_cache.ttl() == STAT_CACHE_TTL_MS,
            r.stat_cache.capacity() == STAT_CACHE_SIZE,
    {
        VolumeCaches {
            directory_cache: Cache::new(DIRECTORY_CACHE_TTL_MS, DIRECTORY_CACHE_SIZE),
            stat_cache: Cache::new(STAT_CACHE_TTL_MS, STAT_CACHE_SIZE),
        }
    }

    /// Forgets what is cached of `path` when its delete succeeded; a failed
    /// delete leaves the caches as they are.
    pub fn after_delete(&mut self, path: &String, result: &core::result::Result<(), u32>)
        requires
            old(self).well_formed(),
        ensures
            final(self).well_formed(),
            result is Ok ==> final(self).stat_cache.view() == without_key(
                old(self).stat_cache.view(),
                path@,
            ) && final(self).directory_cache.view() == without_key(
                old(self).directory_cache.view(),
                path@,
            ),
            result is Err ==> final(self).stat_cache.view() == old(self).stat_cache.view()
                && final(self).directory_cache.view() == old(self).directory_cache.view(),
            final(self).stat_cache.ttl() == old(self).stat_cache.ttl(),
            final(self).stat_cache.capacity() == old(self).stat_cache.capacity(),
            final(self).directory_cache.ttl() == old(self).directory_cache.ttl(),
            final(self).directory_cache.capacity() == old(self).directory_cache.capacity(),
    {
        if result.is_ok() {
            self.forget(path);
        }
    }

    /// Forgets what is cached of `path`, once it was deleted on the device.
    pub fn forget(&mut self, path: &String)
        requires
            old(self).well_formed(),
        ensures
            final(self).well_formed(),
            final(self).stat_cache.view() == without_key(old(self).stat_cache.view(), path@),
            final(self).directory_cache.view() == without_key(
                old(self).directory_cache.view(),
                path@,
            ),
            final(self).stat_cache.ttl() == old(self).stat_cache.ttl(),
            final(self).stat_cache.capacity() == old(self).stat_cache.capacity(),
            final(self).directory_cache.ttl() == old(self).directory_cache.ttl(),
            final(self).directory_cache.capacity() == old(self).directory_cache.capacity(),
    {
        self.stat_cache.erase(path);
        self.directory_cache.erase(path);
    }
}

} // verus!
