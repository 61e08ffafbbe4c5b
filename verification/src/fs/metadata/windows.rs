//! What Windows knows about files.
use crate::error::IoError;
use crate::fs::metadata::SystemTime;
use vstd::prelude::*;

verus! {

/// The file cannot be written.
pub const FILE_ATTRIBUTE_READONLY: u32 = 0x1;

/// The file is a directory.
pub const FILE_ATTRIBUTE_DIRECTORY: u32 = 0x10;

/// The file stands for something else.
pub const FILE_ATTRIBUTE_REPARSE_POINT: u32 = 0x400;

/// The bit of a reparse tag that says that the file stands for another name.
pub const NAME_SURROGATE: u32 = 0x2000_0000;

/// How many intervals of a [`FileTime`] make a second.
pub const INTERVALS_PER_SEC: u64 = 10_000_000;

/// The seconds from 1601 to 1970.
pub const SECS_BETWEEN_EPOCHS: u64 = 11_644_473_600;

/// A time in intervals of a hundred nanoseconds since 1601, in two halves.
#[derive(Clone, Copy, Debug)]
pub struct FileTime {
    pub low: u32,
    pub high: u32,
}

/// The number with these halves.
pub open spec fn spec_join(low: u32, high: u32) -> int {
    high * 0x1_0000_0000 + low
}

/// The number with these halves.
fn join(low: u32, high: u32) -> (whole: u64)
    ensures
        whole == spec_join(low, high),
{
    assert(low as u64 | ((high as u64) << 32) == high as u64 * 0x1_0000_0000 + low as u64) by (bit_vector);
    low as u64 | ((high as u64) << 32)
}

/// The intervals of a time.
pub fn filetime_to_u64(ft: &FileTime) -> (intervals: u64)
    ensures
        intervals == spec_join(ft.low, ft.high),
{
    join(ft.low, ft.high)
}

/// The time. The years before 1970 count backwards.
pub open spec fn spec_system_time(ft: FileTime) -> SystemTime {
    let intervals = spec_join(ft.low, ft.high);
    SystemTime {
        secs: (intervals / INTERVALS_PER_SEC as int - SECS_BETWEEN_EPOCHS) as i64,
        nanos: (intervals % INTERVALS_PER_SEC as int * 100) as u32,
    }
}

/// The time of a [`FileTime`].
pub fn filetime_to_system_time(ft: &FileTime) -> (time: Result<SystemTime, IoError>)
    ensures
        time == Ok::<SystemTime, IoError>(spec_system_time(*ft)),
{
    let intervals: u64 = filetime_to_u64(ft);
    let secs: u64 = intervals / INTERVALS_PER_SEC;
    let subsec_intervals: u64 = intervals % INTERVALS_PER_SEC;
    let nanos: u64 = subsec_intervals * 100;
    Ok(SystemTime { secs: secs as i64 - SECS_BETWEEN_EPOCHS as i64, nanos: nanos as u32 })
}

/// No interval is lost: the time is as many nanoseconds after 1970, or before
/// it, as the intervals say.
pub proof fn law_filetime_is_exact(ft: FileTime)
    ensures
        spec_system_time(ft).wf(),
        spec_system_time(ft).spec_nanos() == (spec_join(ft.low, ft.high) - SECS_BETWEEN_EPOCHS * INTERVALS_PER_SEC)
            * 100,
{
}

/// What Windows answers when asked for a file's metadata.
#[derive(Clone, Copy, Debug)]
pub struct FileInformation {
    pub attributes: u32,
    pub creation_time: FileTime,
    pub last_access_time: FileTime,
    pub last_write_time: FileTime,
    pub file_size_low: u32,
    pub file_size_high: u32,
    pub volume_serial_number: u32,
    pub number_of_links: u32,
    pub file_index_low: u32,
    pub file_index_high: u32,
}

/// What Windows answers when asked what a file stands for.
#[derive(Clone, Copy, Debug)]
pub struct AttributeTag {
    pub attributes: u32,
    pub reparse_tag: u32,
}

/// What is known about a file.
#[derive(Clone, Debug)]
pub struct Metadata {
    attributes: u32,
    creation_time: FileTime,
    last_access_time: FileTime,
    last_write_time: FileTime,
    file_size: u64,
    reparse_tag: u32,
    volume_serial_number: Option<u32>,
    number_of_links: Option<u32>,
    file_index: Option<u64>,
}

/// What is known about a file, as a value.
pub struct MetadataView {
    pub attributes: u32,
    pub creation_time: FileTime,
    pub last_access_time: FileTime,
    pub last_write_time: FileTime,
    pub file_size: int,
    pub reparse_tag: u32,
    pub volume_serial_number: u32,
    pub number_of_links: u32,
    pub file_index: int,
}

impl View for Metadata {
    type V = MetadataView;

    closed spec fn view(&self) -> MetadataView {
        MetadataView {
            attributes: self.attributes,
            creation_time: self.creation_time,
            last_access_time: self.last_access_time,
            last_write_time: self.last_write_time,
            file_size: self.file_size as int,
            reparse_tag: self.reparse_tag,
            volume_serial_number: self.volume_serial_number->0,
            number_of_links: self.number_of_links->0,
            file_index: self.file_index->0 as int,
        }
    }
}

impl Metadata {
    /// Every answer was given.
    pub closed spec fn wf(&self) -> bool {
        &&& self.volume_serial_number is Some
        &&& self.number_of_links is Some
        &&& self.file_index is Some
    }

    /// Whether it has to be asked what the file stands for.
    pub fn needs_reparse_tag(info: &FileInformation) -> (needed: bool)
        ensures
            needed == (info.attributes & FILE_ATTRIBUTE_REPARSE_POINT != 0),
    {
        info.attributes & FILE_ATTRIBUTE_REPARSE_POINT != 0
    }

    /// Put the answers together. `tag` is what the file stands for, where it
    /// was asked and answered; it counts only if it confirms that the file
    /// stands for something.
    pub fn from_information(info: &FileInformation, tag: Option<AttributeTag>) -> (metadata: Self)
        ensures
            metadata.wf(),
            metadata@ == (MetadataView {
                attributes: info.attributes,
                creation_time: info.creation_time,
                last_access_time: info.last_access_time,
                last_write_time: info.last_write_time,
                file_size: spec_join(info.file_size_low, info.file_size_high),
                reparse_tag: match tag {
                    Some(tag) => if info.attributes & FILE_ATTRIBUTE_REPARSE_POINT != 0 && tag.attributes
                        & FILE_ATTRIBUTE_REPARSE_POINT != 0 {
                        tag.reparse_tag
                    } else {
                        0
                    },
                    None => 0,
                },
                volume_serial_number: info.volume_serial_number,
                number_of_links: info.number_of_links,
                file_index: spec_join(info.file_index_low, info.file_index_high),
            }),
    {
        let mut reparse_tag: u32 = 0;
        if Metadata::needs_reparse_tag(info) {
            if let Some(tag) = tag {
                if tag.attributes & FILE_ATTRIBUTE_REPARSE_POINT != 0 {
                    reparse_tag = tag.reparse_tag;
                }
            }
        }
        Metadata {
            attributes: info.attributes,
            creation_time: info.creation_time,
            last_access_time: info.last_access_time,
            last_write_time: info.last_write_time,
            file_size: join(info.file_size_low, info.file_size_high),
            reparse_tag,
            volume_serial_number: Some(info.volume_serial_number),
            number_of_links: Some(info.number_of_links),
            file_index: Some(join(info.file_index_low, info.file_index_high)),
        }
    }

    /// What the file is.
    pub fn file_type(&self) -> (file_type: FileType)
        ensures
            file_type.spec_is_directory() == is_directory(self@.attributes),
            file_type.spec_is_symlink() == is_name_surrogate(self@.attributes, self@.reparse_tag),
    {
        FileType::new(self.attributes, self.reparse_tag)
    }

    /// Whether the file is a directory, and no link to one.
    pub fn is_dir(&self) -> (is: bool)
        ensures
            is == (is_directory(self@.attributes) && !is_name_surrogate(
                self@.attributes,
                self@.reparse_tag,
            )),
    {
        self.file_type().is_dir()
    }

    /// Whether the file is neither a directory nor a link.
    pub fn is_file(&self) -> (is: bool)
        ensures
            is == (!is_directory(self@.attributes) && !is_name_surrogate(
                self@.attributes,
                self@.reparse_tag,
            )),
    {
        self.file_type().is_file()
    }

    /// Whether the file is a link.
    pub fn is_symlink(&self) -> (is: bool)
        ensures
            is == is_name_surrogate(self@.attributes, self@.reparse_tag),
    {
        self.file_type().is_symlink()
    }

    /// The size in bytes.
    pub fn len(&self) -> (len: u64)
        ensures
            len == self@.file_size,
    {
        self.file_size
    }

    /// Who may do what with the file.
    pub fn permissions(&self) -> (permissions: Permissions)
        ensures
            permissions.spec_attrs() == self@.attributes,
    {
        Permissions { attrs: self.attributes }
    }

    /// When the file was last changed.
    pub fn modified(&self) -> (time: Result<SystemTime, IoError>)
        ensures
            time == Ok::<SystemTime, IoError>(spec_system_time(self@.last_write_time)),
    {
        filetime_to_system_time(&self.last_write_time)
    }

    /// When the file was last read.
    pub fn accessed(&self) -> (time: Result<SystemTime, IoError>)
        ensures
            time == Ok::<SystemTime, IoError>(spec_system_time(self@.last_access_time)),
    {
        filetime_to_system_time(&self.last_access_time)
    }

    /// When the file was made.
    pub fn created(&self) -> (time: Result<SystemTime, IoError>)
        ensures
            time == Ok::<SystemTime, IoError>(spec_system_time(self@.creation_time)),
    {
        filetime_to_system_time(&self.creation_time)
    }

    /// The attributes.
    pub fn file_attributes(&self) -> (attributes: u32)
        ensures
            attributes == self@.attributes,
    {
        self.attributes
    }

    /// When the file was made, in intervals.
    pub fn creation_time(&self) -> (intervals: u64)
        ensures
            intervals == spec_join(self@.creation_time.low, self@.creation_time.high),
    {
        filetime_to_u64(&self.creation_time)
    }

    /// When the file was last read, in intervals.
    pub fn last_access_time(&self) -> (intervals: u64)
        ensures
            intervals == spec_join(self@.last_access_time.low, self@.last_access_time.high),
    {
        filetime_to_u64(&self.last_access_time)
    }

    /// When the file was last changed, in intervals.
    pub fn last_write_time(&self) -> (intervals: u64)
        ensures
            intervals == spec_join(self@.last_write_time.low, self@.last_write_time.high),
    {
        filetime_to_u64(&self.last_write_time)
    }

    /// The volume that holds the file.
    pub fn volume_serial_number(&self) -> (number: Option<u32>)
        requires
            self.wf(),
        ensures
            number == Some(self@.volume_serial_number),
    {
        self.volume_serial_number
    }

    /// How many names the file has.
    pub fn number_of_links(&self) -> (number: Option<u32>)
        requires
            self.wf(),
        ensures
            number == Some(self@.number_of_links),
    {
        self.number_of_links
    }

    /// The number of the file on its volume.
    pub fn file_index(&self) -> (index: Option<u64>)
        requires
            self.wf(),
        ensures
            index matches Some(index) && index == self@.file_index,
    {
        self.file_index
    }

    /// When the metadata was last changed, which is not asked for.
    pub fn change_time(&self) -> (intervals: Option<u64>)
        ensures
            intervals is None,
    {
        None
    }
}

/// Whether these are the attributes of a directory.
pub open spec fn is_directory(attributes: u32) -> bool {
    attributes & FILE_ATTRIBUTE_DIRECTORY != 0
}

/// Whether these are the attributes and the tag of a file that stands for
/// another name.
pub open spec fn is_name_surrogate(attributes: u32, reparse_tag: u32) -> bool {
    attributes & FILE_ATTRIBUTE_REPARSE_POINT != 0 && reparse_tag & NAME_SURROGATE != 0
}

/// What a file is.
#[derive(Clone, Copy, Debug, PartialEq, Eq, Hash, Structural)]
pub struct FileType {
    is_directory: bool,
    is_symlink: bool,
}

impl FileType {
    pub closed spec fn spec_is_directory(&self) -> bool {
        self.is_directory
    }

    pub closed spec fn spec_is_symlink(&self) -> bool {
        self.is_symlink
    }

    /// The file type for these attributes and this tag.
    pub fn new(attributes: u32, reparse_tag: u32) -> (file_type: Self)
        ensures
            file_type.spec_is_directory() == is_directory(attributes),
            file_type.spec_is_symlink() == is_name_surrogate(attributes, reparse_tag),
    {
        let is_directory = attributes & FILE_ATTRIBUTE_DIRECTORY != 0;
        let is_reparse_point = attributes & FILE_ATTRIBUTE_REPARSE_POINT != 0;
        let is_reparse_tag_name_surrogate = reparse_tag & NAME_SURROGATE != 0;
        FileType { is_directory, is_symlink: is_reparse_point && is_reparse_tag_name_surrogate }
    }

    /// Whether this is a directory, and no link to one.
    pub fn is_dir(&self) -> (is: bool)
        ensures
            is == (!self.spec_is_symlink() && self.spec_is_directory()),
    {
        !self.is_symlink && self.is_directory
    }

    /// Whether this is neither a directory nor a link.
    pub fn is_file(&self) -> (is: bool)
        ensures
            is == (!self.spec_is_symlink() && !self.spec_is_directory()),
    {
        !self.is_symlink && !self.is_directory
    }

    /// Whether this is a link.
    pub fn is_symlink(&self) -> (is: bool)
        ensures
            is == self.spec_is_symlink(),
    {
        self.is_symlink
    }

    /// Whether this is a link to a directory.
    pub fn is_symlink_dir(&self) -> (is: bool)
        ensures
            is == (self.spec_is_symlink() && self.spec_is_directory()),
    {
        self.is_symlink && self.is_directory
    }

    /// Whether this is a link to a file.
    pub fn is_symlink_file(&self) -> (is: bool)
        ensures
            is == (self.spec_is_symlink() && !self.spec_is_directory()),
    {
        self.is_symlink && !self.is_directory
    }
}

/// Who may do what with a file.
#[derive(Clone, Debug, PartialEq, Eq, Structural)]
pub struct Permissions {
    attrs: u32,
}

impl Permissions {
    pub closed spec fn spec_attrs(&self) -> u32 {
        self.attrs
    }

    /// Whether the file cannot be written.
    pub open spec fn spec_readonly(&self) -> bool {
        self.spec_attrs() & FILE_ATTRIBUTE_READONLY != 0
    }

    /// Whether the file cannot be written.
    pub fn readonly(&self) -> (readonly: bool)
        ensures
            readonly == self.spec_readonly(),
    {
        self.attrs & FILE_ATTRIBUTE_READONLY != 0
    }

    /// Change whether the file can be written. The other attributes stay.
    pub fn set_readonly(&mut self, readonly: bool)
        ensures
            final(self).spec_readonly() == readonly,
            final(self).spec_attrs() & !FILE_ATTRIBUTE_READONLY == old(self).spec_attrs()
                & !FILE_ATTRIBUTE_READONLY,
    {
        let attrs = self.attrs;
        proof {
            assert((attrs | 0x1) & 0x1 != 0 && (attrs | 0x1) & !0x1u32 == attrs & !0x1u32) by (bit_vector);
            assert((attrs & !0x1u32) & 0x1 == 0 && (attrs & !0x1u32) & !0x1u32 == attrs & !0x1u32)
                by (bit_vector);
        }
        if readonly {
            self.attrs = attrs | FILE_ATTRIBUTE_READONLY;
        } else {
            self.attrs = attrs & !FILE_ATTRIBUTE_READONLY;
        }
    }

    /// The attributes.
    pub fn attrs(&self) -> (attrs: u32)
        ensures
            attrs == self.spec_attrs(),
    {
        self.attrs
    }
}

/// The halves of a number are its upper and its lower 32 bits.
pub proof fn law_halves_make_the_number(low: u32, high: u32)
    ensures
        spec_join(low, high) % 0x1_0000_0000 == low,
        spec_join(low, high) / 0x1_0000_0000 == high,
{
}

/// A file is a directory, a link or a file, and only one of these. A link is what
/// stands for another name, whatever that names.
pub proof fn law_a_file_is_one_thing(metadata: Metadata, is_dir: bool, is_file: bool, is_symlink: bool)
    requires
        call_ensures(Metadata::is_dir, (&metadata,), is_dir),
        call_ensures(Metadata::is_file, (&metadata,), is_file),
        call_ensures(Metadata::is_symlink, (&metadata,), is_symlink),
    ensures
        is_symlink <==> metadata@.attributes & 0x400 != 0 && metadata@.reparse_tag & 0x2000_0000 != 0,
        is_dir <==> !is_symlink && metadata@.attributes & 0x10 != 0,
        is_file <==> !is_symlink && !is_dir,
{
}

/// What Windows answers is what is known of the file: its size and its number from
/// their halves, its times and attributes as they are, and what it stands for only
/// where both answers say that it stands for something.
pub proof fn law_metadata_is_what_windows_answered(
    info: FileInformation,
    tag: Option<AttributeTag>,
    metadata: Metadata,
    len: u64,
)
    requires
        call_ensures(Metadata::from_information, (&info, tag), metadata),
        call_ensures(Metadata::len, (&metadata,), len),
    ensures
        len % 0x1_0000_0000 == info.file_size_low,
        len / 0x1_0000_0000 == info.file_size_high,
        metadata@.attributes == info.attributes,
        metadata@.last_write_time == info.last_write_time,
        metadata@.last_access_time == info.last_access_time,
        metadata@.creation_time == info.creation_time,
        metadata@.number_of_links == info.number_of_links,
        tag matches Some(tag) ==> (info.attributes & 0x400 != 0 && tag.attributes & 0x400 != 0
            ==> metadata@.reparse_tag == tag.reparse_tag),
        tag is None || info.attributes & 0x400 == 0 ==> metadata@.reparse_tag == 0,
{
    law_halves_make_the_number(info.file_size_low, info.file_size_high);
}

impl Permissions {
    /// A file is read-only if and only if its attributes say so.
    pub proof fn law_readonly_is_an_attribute(self, readonly: bool)
        requires
            call_ensures(Permissions::readonly, (&self,), readonly),
        ensures
            readonly <==> self.spec_attrs() & 1 != 0,
    {
    }
}

/// The times of a file are those that Windows keeps, counted from 1601 in intervals
/// of a hundred nanoseconds: the last change, the last access and the making of it.
pub proof fn law_times_are_those_of_windows(
    metadata: Metadata,
    modified: Result<SystemTime, IoError>,
    accessed: Result<SystemTime, IoError>,
    created: Result<SystemTime, IoError>,
)
    requires
        call_ensures(Metadata::modified, (&metadata,), modified),
        call_ensures(Metadata::accessed, (&metadata,), accessed),
        call_ensures(Metadata::created, (&metadata,), created),
    ensures
        modified matches Ok(time) && time.wf() && (time.secs + 11_644_473_600) * 10_000_000 + time.nanos / 100
            == metadata@.last_write_time.high * 0x1_0000_0000 + metadata@.last_write_time.low,
        accessed matches Ok(time) && time.wf() && (time.secs + 11_644_473_600) * 10_000_000 + time.nanos / 100
            == metadata@.last_access_time.high * 0x1_0000_0000 + metadata@.last_access_time.low,
        created matches Ok(time) && time.wf() && (time.secs + 11_644_473_600) * 10_000_000 + time.nanos / 100
            == metadata@.creation_time.high * 0x1_0000_0000 + metadata@.creation_time.low,
{
}

} // verus!
