//! Validation and parsing of a 64-bit native image's headers.
use vstd::prelude::*;

use crate::bytes::{read_u16, read_u32, read_u64, u16_le, u32_le, u64_le};
use crate::error::MapError;

verus! {

/// Size of the front (DOS) header.
pub const DOS_HEADER_SIZE: u64 = 64;
/// Signature of the front header, "MZ".
pub const DOS_SIGNATURE: u16 = 0x5A4D;
/// Offset in the front header of the extended header's offset.
pub const NT_OFFSET_FIELD: usize = 0x3C;
/// Size of the extended headers of a 64-bit image.
pub const NT_HEADERS_SIZE: u64 = 264;
/// Signature of the extended header, "PE\0\0".
pub const NT_SIGNATURE: u32 = 0x4550;
/// Magic value of a 64-bit optional header.
pub const OPTIONAL_MAGIC_64: u16 = 0x20B;
/// Size of one section header.
pub const SECTION_HEADER_SIZE: u64 = 40;
/// Machine tag of x86-64 images.
pub const MACHINE_AMD64: u16 = 0x8664;
/// Machine tag of 32-bit x86 images.
pub const MACHINE_I386: u16 = 0x14C;
/// Section characteristic: the section may be executed.
pub const SCN_MEM_EXECUTE: u32 = 0x2000_0000;
/// Section characteristic: the section may be written.
pub const SCN_MEM_WRITE: u32 = 0x8000_0000;

/// An (offset, size) pair locating a table inside the mapped image.
#[derive(Clone, Copy, PartialEq, Eq, Debug)]
pub struct DataDirectory {
    pub rva: u32,
    pub size: u32,
}

/// One section header.
#[derive(Debug)]
pub struct Section {
    /// The name bytes, up to the first zero byte (at most eight).
    pub name: Vec<u8>,
    pub virtual_address: u32,
    pub virtual_size: u32,
    pub raw_offset: u32,
    pub raw_size: u32,
    pub characteristics: u32,
    pub writable: bool,
    pub executable: bool,
}

/// The parsed headers of a validated image.
#[derive(Debug)]
pub struct SourceImage {
    pub machine: u16,
    pub preferred_base: u64,
    pub total_virtual_size: u32,
    pub header_size: u32,
    pub entry_point: u32,
    pub import_directory: DataDirectory,
    pub relocation_directory: DataDirectory,
    pub sections: Vec<Section>,
}

/// The first index in `[pos, end)` that holds a zero byte, or `end`.
pub open spec fn str_end(b: Seq<u8>, pos: int, end: int) -> int
    decreases end - pos,
{
    if pos >= end {
        end
    } else if b[pos] == 0 {
        pos
    } else {
        str_end(b, pos + 1, end)
    }
}

/// Offset of the extended header, as the front header states it.
pub open spec fn nt_offset(b: Seq<u8>) -> int {
    u32_le(b, NT_OFFSET_FIELD as int)
}

/// The front header is truncated, unsigned, or points outside the buffer,
/// or the extended header is unsigned.
pub open spec fn front_malformed(b: Seq<u8>) -> bool {
    ||| b.len() < DOS_HEADER_SIZE
    ||| u16_le(b, 0) != DOS_SIGNATURE
    ||| nt_offset(b) >= 0x8000_0000
    ||| nt_offset(b) + NT_HEADERS_SIZE > b.len()
    ||| u32_le(b, nt_offset(b)) != NT_SIGNATURE
}

pub open spec fn machine_of(b: Seq<u8>) -> int {
    u16_le(b, nt_offset(b) + 4)
}

pub open spec fn section_count(b: Seq<u8>) -> int {
    u16_le(b, nt_offset(b) + 6)
}

pub open spec fn optional_offset(b: Seq<u8>) -> int {
    nt_offset(b) + 24
}

pub open spec fn section_table(b: Seq<u8>) -> int {
    optional_offset(b) + u16_le(b, nt_offset(b) + 20)
}

pub open spec fn section_header_at(b: Seq<u8>, i: int) -> int {
    section_table(b) + SECTION_HEADER_SIZE * i
}

/// The raw data of the `i`-th section lies outside the buffer.
pub open spec fn section_raw_outside(b: Seq<u8>, i: int) -> bool {
    let h = section_header_at(b, i);
    u32_le(b, h + 16) > 0 && u32_le(b, h + 20) + u32_le(b, h + 16) > b.len()
}

/// Past a sound front header: the optional header is not the 64-bit kind,
/// the section table leaves the buffer, or some section's raw data does.
pub open spec fn body_malformed(b: Seq<u8>) -> bool {
    ||| u16_le(b, optional_offset(b)) != OPTIONAL_MAGIC_64
    ||| section_header_at(b, section_count(b)) > b.len()
    ||| exists|i: int| 0 <= i < section_count(b) && #[trigger] section_raw_outside(b, i)
}

/// The buffer is an image that this machine (`host`) can load.
pub open spec fn image_ok(b: Seq<u8>, host: u16) -> bool {
    !front_malformed(b) && machine_of(b) == host && !body_malformed(b)
}

/// The error that validation reports for a buffer that is not `image_ok`.
pub open spec fn validation_error_is(b: Seq<u8>, host: u16, e: MapError) -> bool {
    if front_malformed(b) {
        e is MalformedImage
    } else if machine_of(b) != host {
        e is ArchitectureMismatch
    } else {
        e is MalformedImage
    }
}

impl Section {
    /// The section is the one whose header starts at `h` in `b`.
    pub open spec fn parsed_at(&self, b: Seq<u8>, h: int) -> bool {
        &&& self.name@ == b.subrange(h, str_end(b, h, h + 8))
        &&& self.virtual_size as int == u32_le(b, h + 8)
        &&& self.virtual_address as int == u32_le(b, h + 12)
        &&& self.raw_size as int == u32_le(b, h + 16)
        &&& self.raw_offset as int == u32_le(b, h + 20)
        &&& self.characteristics as int == u32_le(b, h + 36)
        &&& self.writable == (self.characteristics & SCN_MEM_WRITE != 0)
        &&& self.executable == (self.characteristics & SCN_MEM_EXECUTE != 0)
    }
}

impl SourceImage {
    /// Every section's raw data lies inside a buffer of `len` bytes.
    pub open spec fn raw_data_within(&self, len: int) -> bool {
        forall|i: int|
            0 <= i < self.sections@.len() ==> {
                let s = #[trigger] self.sections@[i];
                s.raw_size > 0 ==> s.raw_offset + s.raw_size <= len
            }
    }

    /// The image holds exactly what the headers of `b` state.
    pub open spec fn parsed_from(&self, b: Seq<u8>) -> bool {
        let opt = optional_offset(b);
        &&& self.machine as int == machine_of(b)
        &&& self.entry_point as int == u32_le(b, opt + 16)
        &&& self.preferred_base as int == u64_le(b, opt + 24)
        &&& self.total_virtual_size as int == u32_le(b, opt + 56)
        &&& self.header_size as int == u32_le(b, opt + 60)
        &&& self.import_directory.rva as int == u32_le(b, opt + 120)
        &&& self.import_directory.size as int == u32_le(b, opt + 124)
        &&& self.relocation_directory.rva as int == u32_le(b, opt + 152)
        &&& self.relocation_directory.size as int == u32_le(b, opt + 156)
        &&& self.sections@.len() == section_count(b)
        &&& forall|i: int|
            0 <= i < self.sections@.len() ==> #[trigger] self.sections@[i].parsed_at(
                b,
                section_header_at(b, i),
            )
    }
}

/// Reads the name field of the section header at `h`: its bytes up to the
/// first zero, at most eight.
fn read_section_name(b: &Vec<u8>, h: usize) -> (r: Vec<u8>)
    requires
        h + 8 <= b.len(),
    ensures
        r@ == b@.subrange(h as int, str_end(b@, h as int, h + 8)),
{
    let mut name: Vec<u8> = Vec::new();
    let mut i: usize = h;
    while i < h + 8 && b[i] != 0
        invariant
            h <= i <= h + 8,
            h + 8 <= b.len(),
            str_end(b@, h as int, h + 8) == str_end(b@, i as int, h + 8),
            name@ == b@.subrange(h as int, i as int),
        decreases h + 8 - i,
    {
        name.push(b[i]);
        i = i + 1;
        assert(name@ =~= b@.subrange(h as int, i as int));
    }
    name
}

/// Parses the section header at `h`.
fn read_section(b: &Vec<u8>, h: usize) -> (r: Section)
    requires
        h + 40 <= b.len(),
    ensures
        r.parsed_at(b@, h as int),
{
    let characteristics = read_u32(b, h + 36);
    Section {
        name: read_section_name(b, h),
        virtual_size: read_u32(b, h + 8),
        virtual_address: read_u32(b, h + 12),
        raw_size: read_u32(b, h + 16),
        raw_offset: read_u32(b, h + 20),
        characteristics,
        writable: characteristics & SCN_MEM_WRITE != 0,
        executable: characteristics & SCN_MEM_EXECUTE != 0,
    }
}

/// Checks the headers of `data` and parses them: front header size and
/// signature, the extended header's offset and signature, the machine
/// (which must be `host`), then the optional header and section table.
/// Nothing outside `data` is touched.
pub fn validate_image(data: &Vec<u8>, host: u16) -> (r: Result<SourceImage, MapError>)
    ensures
        match r {
            Ok(img) => image_ok(data@, host) && img.parsed_from(data@) && img.raw_data_within(
                data@.len() as int,
            ),
            Err(e) => !image_ok(data@, host) && validation_error_is(data@, host, e),
        },
{
    let len = data.len() as u64;
    if len < DOS_HEADER_SIZE {
        return Err(MapError::MalformedImage);
    }
    if read_u16(data, 0) != DOS_SIGNATURE {
        return Err(MapError::MalformedImage);
    }
    let nt = read_u32(data, NT_OFFSET_FIELD) as u64;
    if nt >= 0x8000_0000 || nt + NT_HEADERS_SIZE > len {
        return Err(MapError::MalformedImage);
    }
    let ntu = nt as usize;
    if read_u32(data, ntu) != NT_SIGNATURE {
        return Err(MapError::MalformedImage);
    }
    let machine = read_u16(data, ntu + 4);
    if machine != host {
        return Err(MapError::ArchitectureMismatch);
    }
    let count = read_u16(data, ntu + 6);
    let optional_size = read_u16(data, ntu + 20);
    let opt = ntu + 24;
    if read_u16(data, opt) != OPTIONAL_MAGIC_64 {
        return Err(MapError::MalformedImage);
    }
    let table = nt + 24 + optional_size as u64;
    if table + SECTION_HEADER_SIZE * (count as u64) > len {
        return Err(MapError::MalformedImage);
    }
    let mut sections: Vec<Section> = Vec::new();
    let mut i: u16 = 0;
    while i < count
        invariant
            !front_malformed(data@),
            machine_of(data@) == host,
            u16_le(data@, optional_offset(data@)) == OPTIONAL_MAGIC_64,
            count as int == section_count(data@),
            table as int == section_table(data@),
            len == data@.len(),
            section_header_at(data@, count as int) <= len,
            0 <= i <= count,
            sections@.len() == i,
            forall|j: int| 0 <= j < i ==> !#[trigger] section_raw_outside(data@, j),
            forall|j: int|
                0 <= j < i ==> #[trigger] sections@[j].parsed_at(
                    data@,
                    section_header_at(data@, j),
                ),
        decreases count - i,
    {
        let h = table + SECTION_HEADER_SIZE * (i as u64);
        let section = read_section(data, h as usize);
        if section.raw_size > 0 && section.raw_offset as u64 + section.raw_size as u64 > len {
            assert(section_raw_outside(data@, i as int));
            return Err(MapError::MalformedImage);
        }
        sections.push(section);
        i = i + 1;
    }
    let img = SourceImage {
        machine,
        entry_point: read_u32(data, opt + 16),
        preferred_base: read_u64(data, opt + 24),
        total_virtual_size: read_u32(data, opt + 56),
        header_size: read_u32(data, opt + 60),
        import_directory: DataDirectory { rva: read_u32(data, opt + 120), size: read_u32(data, opt + 124) },
        relocation_directory: DataDirectory {
            rva: read_u32(data, opt + 152),
            size: read_u32(data, opt + 156),
        },
        sections,
    };
    assert forall|j: int| 0 <= j < img.sections@.len() implies {
        let s = #[trigger] img.sections@[j];
        s.raw_size > 0 ==> s.raw_offset + s.raw_size <= len
    } by {
        assert(!section_raw_outside(data@, j));
        assert(img.sections@[j].parsed_at(data@, section_header_at(data@, j)));
    }
    Ok(img)
}

} // verus!
