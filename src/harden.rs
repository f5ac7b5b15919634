//! After the image has run its initialisation: zeroing the header and the
//! sections that are no longer needed, and choosing each section's final
//! memory protection.
use vstd::prelude::*;

use crate::bytes::{fill_zero, write_at, zeros};
use crate::image::{Section, SourceImage};
use crate::layout::{header_copy_len, HEADER_COPY_LIMIT};

verus! {

/// The memory protection a section ends with.
#[derive(Clone, Copy, PartialEq, Eq, Debug)]
pub enum Protection {
    ReadOnly,
    ReadWrite,
    ExecuteRead,
}

/// One protection change: `size` bytes from `offset` (from the image base).
#[derive(Clone, Copy, PartialEq, Eq, Debug)]
pub struct ProtectionChange {
    pub offset: u64,
    pub size: u64,
    pub protection: Protection,
}

/// The narrowest protection that the section's characteristics allow:
/// writable sections are read/write, else executable ones read/execute,
/// else read-only.
pub open spec fn protection_for(s: Section) -> Protection {
    if s.writable {
        Protection::ReadWrite
    } else if s.executable {
        Protection::ExecuteRead
    } else {
        Protection::ReadOnly
    }
}

/// One change per section with a nonzero virtual size, in section order.
pub open spec fn protection_plan(secs: Seq<Section>) -> Seq<ProtectionChange>
    decreases secs.len(),
{
    if secs.len() == 0 {
        seq![]
    } else {
        let prev = protection_plan(secs.drop_last());
        let s = secs.last();
        if s.virtual_size == 0 {
            prev
        } else {
            prev.push(
                ProtectionChange {
                    offset: s.virtual_address as u64,
                    size: s.virtual_size as u64,
                    protection: protection_for(s),
                },
            )
        }
    }
}

/// The names of sections that are zeroed once the image is prepared:
/// exception data, resources and relocations.
pub open spec fn is_cleared_name(n: Seq<u8>) -> bool {
    ||| n == seq![0x2Eu8, 0x70, 0x64, 0x61, 0x74, 0x61]
    ||| n == seq![0x2Eu8, 0x72, 0x73, 0x72, 0x63]
    ||| n == seq![0x2Eu8, 0x72, 0x65, 0x6C, 0x6F, 0x63]
}

/// The length of the part of a section's virtual range that lies in a
/// region of `len` bytes, for a section that starts inside it.
pub open spec fn clear_len(s: Section, len: int) -> int {
    if s.virtual_address + s.virtual_size > len {
        len - s.virtual_address
    } else {
        s.virtual_size as int
    }
}

/// `mem` after zeroing, in order, each section of `secs` with a cleared
/// name and a nonzero virtual size that starts inside the region, clipped
/// to the region.
pub open spec fn sections_cleared(mem: Seq<u8>, secs: Seq<Section>) -> Seq<u8>
    decreases secs.len(),
{
    if secs.len() == 0 {
        mem
    } else {
        let prev = sections_cleared(mem, secs.drop_last());
        let s = secs.last();
        if s.virtual_size != 0 && is_cleared_name(s.name@) && s.virtual_address < prev.len() {
            write_at(prev, s.virtual_address as int, zeros(clear_len(s, prev.len() as int)))
        } else {
            prev
        }
    }
}

/// `mem` after the header prefix is zeroed.
pub open spec fn header_cleared(mem: Seq<u8>) -> Seq<u8> {
    write_at(mem, 0, zeros(header_copy_len(mem.len() as int)))
}

/// Byte `k` lies in the virtual range of a section of `secs` that is zeroed.
pub open spec fn in_cleared_section(secs: Seq<Section>, k: int) -> bool {
    exists|i: int|
        0 <= i < secs.len() && (#[trigger] secs[i]).virtual_size != 0 && is_cleared_name(secs[i].name@)
            && secs[i].virtual_address <= k < secs[i].virtual_address + secs[i].virtual_size
}

/// Zeroing sections changes only bytes inside the zeroed sections.
pub proof fn lemma_sections_cleared_keeps_other_bytes(mem: Seq<u8>, secs: Seq<Section>, k: int)
    requires
        0 <= k < mem.len(),
        !in_cleared_section(secs, k),
    ensures
        sections_cleared(mem, secs).len() == mem.len(),
        sections_cleared(mem, secs)[k] == mem[k],
    decreases secs.len(),
{
    if secs.len() > 0 {
        let p = secs.drop_last();
        assert(!in_cleared_section(p, k)) by {
            if in_cleared_section(p, k) {
                let i = choose|i: int|
                    0 <= i < p.len() && (#[trigger] p[i]).virtual_size != 0 && is_cleared_name(p[i].name@)
                        && p[i].virtual_address <= k < p[i].virtual_address + p[i].virtual_size;
                assert(p[i] == secs[i]);
            }
        }
        lemma_sections_cleared_keeps_other_bytes(mem, p, k);
        let n = secs.len() - 1;
        assert(secs.last() == secs[n]);
    }
}

/// Hardening changes only the header prefix (when it is cleared) and the
/// zeroed sections (when they are cleared).
pub proof fn lemma_hardened_keeps_other_bytes(mem: Seq<u8>, img: SourceImage, opts: HardeningOptions, k: int)
    requires
        0 <= k < mem.len(),
        opts.clear_header ==> k >= header_copy_len(mem.len() as int),
        opts.clear_sections ==> !in_cleared_section(img.sections@, k),
    ensures
        hardened(mem, img, opts).len() == mem.len(),
        hardened(mem, img, opts)[k] == mem[k],
{
    let m = if opts.clear_header {
        header_cleared(mem)
    } else {
        mem
    };
    assert(m.len() == mem.len() && m[k] == mem[k]);
    if opts.clear_sections {
        lemma_sections_cleared_keeps_other_bytes(m, img.sections@, k);
    }
}

/// The protection that `s` ends with.
pub fn section_protection(s: &Section) -> (r: Protection)
    ensures
        r == protection_for(*s),
{
    if s.writable {
        Protection::ReadWrite
    } else if s.executable {
        Protection::ExecuteRead
    } else {
        Protection::ReadOnly
    }
}

/// The protection changes for the image's sections: one for each section
/// with a nonzero virtual size, over its virtual range.
pub fn adjust_section_protections(img: &SourceImage) -> (r: Vec<ProtectionChange>)
    ensures
        r@ == protection_plan(img.sections@),
{
    let mut out: Vec<ProtectionChange> = Vec::new();
    let n = img.sections.len();
    let mut i: usize = 0;
    while i < n
        invariant
            0 <= i <= n,
            n == img.sections@.len(),
            out@ == protection_plan(img.sections@.subrange(0, i as int)),
        decreases n - i,
    {
        let ghost after = img.sections@.subrange(0, i + 1);
        assert(after.drop_last() =~= img.sections@.subrange(0, i as int));
        let s = &img.sections[i];
        if s.virtual_size != 0 {
            out.push(
                ProtectionChange {
                    offset: s.virtual_address as u64,
                    size: s.virtual_size as u64,
                    protection: section_protection(s),
                },
            );
        }
        i = i + 1;
    }
    assert(img.sections@.subrange(0, n as int) =~= img.sections@);
    out
}

/// Whether a section of this name is zeroed once the image is prepared.
pub fn is_cleared_section_name(name: &Vec<u8>) -> (r: bool)
    ensures
        r == is_cleared_name(name@),
{
    let n = name.len();
    let hit = if n == 6 && name[0] == 0x2E && name[1] == 0x70 && name[2] == 0x64 && name[3] == 0x61
        && name[4] == 0x74 && name[5] == 0x61 {
        true
    } else if n == 5 && name[0] == 0x2E && name[1] == 0x72 && name[2] == 0x73 && name[3] == 0x72
        && name[4] == 0x63 {
        true
    } else {
        n == 6 && name[0] == 0x2E && name[1] == 0x72 && name[2] == 0x65 && name[3] == 0x6C
            && name[4] == 0x6F && name[5] == 0x63
    };
    proof {
        let a = seq![0x2Eu8, 0x70, 0x64, 0x61, 0x74, 0x61];
        let b = seq![0x2Eu8, 0x72, 0x73, 0x72, 0x63];
        let c = seq![0x2Eu8, 0x72, 0x65, 0x6C, 0x6F, 0x63];
        if name@ == a {
            assert(name@[0] == a[0] && name@[1] == a[1] && name@[2] == a[2] && name@[3] == a[3] && name@[4] == a[4] && name@[5] == a[5]);
        }
        if name@ == b {
            assert(name@[0] == b[0] && name@[1] == b[1] && name@[2] == b[2] && name@[3] == b[3] && name@[4] == b[4]);
        }
        if name@ == c {
            assert(name@[0] == c[0] && name@[1] == c[1] && name@[2] == c[2] && name@[3] == c[3] && name@[4] == c[4] && name@[5] == c[5]);
        }
        if hit {
            if n == 6 && name@[1] == 0x70 {
                assert(name@ =~= a);
            } else if n == 5 {
                assert(name@ =~= b);
            } else {
                assert(name@ =~= c);
            }
        }
    }
    hit
}

/// Zeroes, in order, the virtual range (clipped to the region) of each
/// section with a nonzero virtual size, starting inside the region, whose
/// name is `.pdata`, `.rsrc` or `.reloc`.
pub fn clear_unnecessary_sections(mem: &mut Vec<u8>, img: &SourceImage)
    ensures
        final(mem)@ == sections_cleared(old(mem)@, img.sections@),
{
    let n = img.sections.len();
    let ghost start = mem@;
    let mut i: usize = 0;
    while i < n
        invariant
            0 <= i <= n,
            n == img.sections@.len(),
            mem@ == sections_cleared(start, img.sections@.subrange(0, i as int)),
        decreases n - i,
    {
        let ghost before = img.sections@.subrange(0, i as int);
        let ghost after = img.sections@.subrange(0, i + 1);
        assert(after.drop_last() =~= before);
        assert(after.last() == img.sections@[i as int]);
        let s = &img.sections[i];
        if s.virtual_size != 0 && is_cleared_section_name(&s.name) {
            let len = mem.len() as u64;
            let va = s.virtual_address as u64;
            if va < len {
                let size: u64 = if va + s.virtual_size as u64 > len {
                    len - va
                } else {
                    s.virtual_size as u64
                };
                fill_zero(mem, va as usize, size as usize);
            }
        }
        i = i + 1;
    }
    assert(img.sections@.subrange(0, n as int) =~= img.sections@);
}

/// Zeroes the header prefix: the first `min(0x1000, len)` bytes of the region.
pub fn clear_header(mem: &mut Vec<u8>)
    ensures
        final(mem)@ == header_cleared(old(mem)@),
{
    let len = mem.len();
    let n: usize = if (len as u64) < HEADER_COPY_LIMIT {
        len
    } else {
        HEADER_COPY_LIMIT as usize
    };
    fill_zero(mem, 0, n);
}

/// Which steps run once the image is prepared.
#[derive(Clone, Copy, PartialEq, Eq, Debug)]
pub struct HardeningOptions {
    pub clear_header: bool,
    pub clear_sections: bool,
    pub adjust_protections: bool,
}

/// The region after the configured zeroing steps (header first, then sections).
pub open spec fn hardened(mem: Seq<u8>, img: SourceImage, opts: HardeningOptions) -> Seq<u8> {
    let m = if opts.clear_header {
        header_cleared(mem)
    } else {
        mem
    };
    if opts.clear_sections {
        sections_cleared(m, img.sections@)
    } else {
        m
    }
}

/// Runs the configured steps on the prepared region and returns the
/// protection changes to apply (none when protections are not adjusted).
pub fn perform_post_mapping_cleanup(mem: &mut Vec<u8>, img: &SourceImage, opts: HardeningOptions) -> (r: Vec<ProtectionChange>)
    ensures
        final(mem)@ == hardened(old(mem)@, *img, opts),
        r@ == if opts.adjust_protections {
            protection_plan(img.sections@)
        } else {
            Seq::<ProtectionChange>::empty()
        },
{
    if opts.clear_header {
        clear_header(mem);
    }
    if opts.clear_sections {
        clear_unnecessary_sections(mem, img);
    }
    if opts.adjust_protections {
        adjust_section_protections(img)
    } else {
        let v: Vec<ProtectionChange> = Vec::new();
        assert(v@ =~= Seq::<ProtectionChange>::empty());
        v
    }
}

} // verus!
