//! Laying the image out in its region: the header prefix at the start, then
//! each section's raw bytes at its virtual address.
use vstd::prelude::*;

use crate::bytes::{copy_into, write_at, zeros};
use crate::error::MapError;
use crate::image::{Section, SourceImage};

verus! {

/// At most this many bytes of the file are copied as the header.
pub const HEADER_COPY_LIMIT: u64 = 0x1000;

/// How many bytes of a file of `len` bytes are copied as its header.
pub open spec fn header_copy_len(len: int) -> int {
    if len < HEADER_COPY_LIMIT {
        len
    } else {
        HEADER_COPY_LIMIT as int
    }
}

/// `mem` after the raw bytes of each section of `secs` with any are written
/// to their virtual addresses, in order.
pub open spec fn sections_written(mem: Seq<u8>, data: Seq<u8>, secs: Seq<Section>) -> Seq<u8>
    decreases secs.len(),
{
    if secs.len() == 0 {
        mem
    } else {
        let prev = sections_written(mem, data, secs.drop_last());
        let s = secs.last();
        if s.raw_size == 0 {
            prev
        } else {
            write_at(
                prev,
                s.virtual_address as int,
                data.subrange(s.raw_offset as int, s.raw_offset + s.raw_size),
            )
        }
    }
}

/// The section's raw bytes fit in a region of `size` bytes at its virtual address.
pub open spec fn section_fits(s: Section, size: int) -> bool {
    s.raw_size == 0 || s.virtual_address + s.raw_size <= size
}

/// Every write of the layout stays inside the image's region.
pub open spec fn layout_fits(data: Seq<u8>, img: SourceImage) -> bool {
    &&& header_copy_len(data.len() as int) <= img.total_virtual_size
    &&& forall|i: int|
        0 <= i < img.sections@.len() ==> section_fits(
            #[trigger] img.sections@[i],
            img.total_virtual_size as int,
        )
}

/// The content of the freshly committed (zeroed) region after the layout.
pub open spec fn laid_out(data: Seq<u8>, img: SourceImage) -> Seq<u8> {
    sections_written(
        write_at(
            zeros(img.total_virtual_size as int),
            0,
            data.subrange(0, header_copy_len(data.len() as int)),
        ),
        data,
        img.sections@,
    )
}

/// A zeroed buffer of `n` bytes, the content of freshly committed memory.
pub fn zeroed(n: usize) -> (r: Vec<u8>)
    ensures
        r@ == zeros(n as int),
{
    let mut v: Vec<u8> = Vec::with_capacity(n);
    let mut i: usize = 0;
    while i < n
        invariant
            0 <= i <= n,
            v@ == zeros(i as int),
        decreases n - i,
    {
        v.push(0u8);
        i = i + 1;
        assert(v@ =~= zeros(i as int));
    }
    v
}

proof fn lemma_sections_written_len(mem: Seq<u8>, data: Seq<u8>, secs: Seq<Section>)
    requires
        forall|i: int| 0 <= i < secs.len() ==> section_fits(#[trigger] secs[i], mem.len() as int),
        forall|i: int|
            0 <= i < secs.len() ==> {
                let s = #[trigger] secs[i];
                s.raw_size > 0 ==> s.raw_offset + s.raw_size <= data.len()
            },
    ensures
        sections_written(mem, data, secs).len() == mem.len(),
    decreases secs.len(),
{
    if secs.len() > 0 {
        let p = secs.drop_last();
        assert forall|i: int| 0 <= i < p.len() implies section_fits(#[trigger] p[i], mem.len() as int) by {
            assert(p[i] == secs[i]);
        }
        assert forall|i: int| 0 <= i < p.len() implies {
            let s = #[trigger] p[i];
            s.raw_size > 0 ==> s.raw_offset + s.raw_size <= data.len()
        } by {
            assert(p[i] == secs[i]);
        }
        lemma_sections_written_len(mem, data, p);
        assert(secs.last() == secs[secs.len() - 1]);
    }
}

/// Builds the image's region content: a zeroed region of the declared total
/// virtual size, the header prefix (the first `min(0x1000, len)` bytes of
/// the file) at its start, and each section with raw data at its virtual
/// address. Fails with `RemoteWriteFailed` when any of these writes would
/// leave the region.
pub fn map_pe_sections(data: &Vec<u8>, img: &SourceImage) -> (r: Result<Vec<u8>, MapError>)
    requires
        img.raw_data_within(data@.len() as int),
    ensures
        match r {
            Ok(mem) => layout_fits(data@, *img) && mem@ == laid_out(data@, *img),
            Err(e) => !layout_fits(data@, *img) && e is RemoteWriteFailed,
        },
{
    let size = img.total_virtual_size as usize;
    let header_len: usize = if (data.len() as u64) < HEADER_COPY_LIMIT {
        data.len()
    } else {
        HEADER_COPY_LIMIT as usize
    };
    if header_len > size {
        return Err(MapError::RemoteWriteFailed);
    }
    let n = img.sections.len();
    let mut k: usize = 0;
    while k < n
        invariant
            0 <= k <= n,
            n == img.sections@.len(),
            size == img.total_virtual_size,
            forall|i: int|
                0 <= i < k ==> section_fits(#[trigger] img.sections@[i], size as int),
        decreases n - k,
    {
        let s = &img.sections[k];
        if s.raw_size != 0 && s.virtual_address as u64 + s.raw_size as u64 > size as u64 {
            assert(!section_fits(img.sections@[k as int], size as int));
            return Err(MapError::RemoteWriteFailed);
        }
        k = k + 1;
    }
    let mut mem = zeroed(size);
    copy_into(&mut mem, 0, data, 0, header_len);
    let ghost base = mem@;
    let mut j: usize = 0;
    while j < n
        invariant
            0 <= j <= n,
            n == img.sections@.len(),
            size == img.total_virtual_size,
            base.len() == size,
            layout_fits(data@, *img),
            img.raw_data_within(data@.len() as int),
            mem@ == sections_written(base, data@, img.sections@.subrange(0, j as int)),
        decreases n - j,
    {
        let ghost before = img.sections@.subrange(0, j as int);
        let ghost after = img.sections@.subrange(0, j + 1);
        assert(after.drop_last() =~= before);
        assert(after.last() == img.sections@[j as int]);
        proof {
            assert forall|i: int| 0 <= i < before.len() implies section_fits(
                #[trigger] before[i],
                base.len() as int,
            ) by {
                assert(before[i] == img.sections@[i]);
            }
            assert forall|i: int| 0 <= i < before.len() implies {
                let s = #[trigger] before[i];
                s.raw_size > 0 ==> s.raw_offset + s.raw_size <= data@.len()
            } by {
                assert(before[i] == img.sections@[i]);
            }
            lemma_sections_written_len(base, data@, before);
        }
        let s = &img.sections[j];
        if s.raw_size != 0 {
            assert(section_fits(img.sections@[j as int], size as int));
            copy_into(
                &mut mem,
                s.virtual_address as usize,
                data,
                s.raw_offset as usize,
                s.raw_size as usize,
            );
        }
        j = j + 1;
    }
    assert(img.sections@.subrange(0, n as int) =~= img.sections@);
    Ok(mem)
}


/// The layout keeps the region's size.
pub proof fn lemma_laid_out_len(data: Seq<u8>, img: SourceImage)
    requires
        layout_fits(data, img),
        img.raw_data_within(data.len() as int),
    ensures
        laid_out(data, img).len() == img.total_virtual_size,
{
    let mem0 = write_at(
        zeros(img.total_virtual_size as int),
        0,
        data.subrange(0, header_copy_len(data.len() as int)),
    );
    assert(mem0.len() == img.total_virtual_size);
    assert forall|k: int| 0 <= k < img.sections@.len() implies section_fits(#[trigger] img.sections@[k], mem0.len() as int) by {}
    lemma_sections_written_len(mem0, data, img.sections@);
}

/// No two sections with raw data are written over each other's ranges.
pub open spec fn written_ranges_disjoint(secs: Seq<Section>) -> bool {
    forall|i: int, j: int|
        0 <= i < secs.len() && 0 <= j < secs.len() && i != j && (#[trigger] secs[i]).raw_size > 0
            && (#[trigger] secs[j]).raw_size > 0 ==> secs[i].virtual_address + secs[i].raw_size
            <= secs[j].virtual_address || secs[j].virtual_address + secs[j].raw_size
            <= secs[i].virtual_address
}

/// In the layout, every byte of a section's written range holds the
/// matching raw byte of the file, when the written ranges are disjoint.
pub proof fn lemma_section_bytes_written(mem: Seq<u8>, data: Seq<u8>, secs: Seq<Section>, i: int, q: int)
    requires
        forall|k: int| 0 <= k < secs.len() ==> section_fits(#[trigger] secs[k], mem.len() as int),
        forall|k: int|
            0 <= k < secs.len() ==> {
                let s = #[trigger] secs[k];
                s.raw_size > 0 ==> s.raw_offset + s.raw_size <= data.len()
            },
        written_ranges_disjoint(secs),
        0 <= i < secs.len(),
        secs[i].raw_size > 0,
        0 <= q < secs[i].raw_size,
    ensures
        sections_written(mem, data, secs)[secs[i].virtual_address + q] == data[secs[i].raw_offset + q],
    decreases secs.len(),
{
    let n = secs.len() - 1;
    let p = secs.drop_last();
    assert forall|k: int| 0 <= k < p.len() implies section_fits(#[trigger] p[k], mem.len() as int) by {
        assert(p[k] == secs[k]);
    }
    assert forall|k: int| 0 <= k < p.len() implies {
        let s = #[trigger] p[k];
        s.raw_size > 0 ==> s.raw_offset + s.raw_size <= data.len()
    } by {
        assert(p[k] == secs[k]);
    }
    lemma_sections_written_len(mem, data, p);
    assert(secs.last() == secs[n]);
    if i < n {
        assert forall|a: int, b: int|
            0 <= a < p.len() && 0 <= b < p.len() && a != b && (#[trigger] p[a]).raw_size > 0
                && (#[trigger] p[b]).raw_size > 0 implies p[a].virtual_address + p[a].raw_size
            <= p[b].virtual_address || p[b].virtual_address + p[b].raw_size <= p[a].virtual_address by {
            assert(p[a] == secs[a] && p[b] == secs[b]);
        }
        assert(p[i] == secs[i]);
        lemma_section_bytes_written(mem, data, p, i, q);
        assert(section_fits(secs[n], mem.len() as int));
        assert(section_fits(secs[i], mem.len() as int));
    } else {
        assert(section_fits(secs[n], mem.len() as int));
    }
}

} // verus!
