//! Base relocations: reading the relocation table, and adding the distance
//! between the granted and the preferred base to every 64-bit address field.
use vstd::prelude::*;

use crate::bytes::{le_bytes64, read_u16, read_u32, read_u64, u16_le, u32_le, u64_le, write_at, write_u64};
use crate::error::MapError;
use crate::image::SourceImage;

verus! {

/// Relocation type that adds the delta to the 64-bit field at the offset.
pub const REL_BASED_DIR64: u16 = 10;

/// One entry of the relocation table: an offset from the image base, and
/// the entry's type (the high four bits of its 16-bit word).
#[derive(Clone, Copy, PartialEq, Eq, Debug)]
pub struct RelocationEntry {
    pub virtual_address_offset: u64,
    pub kind: u16,
}

/// The entries of one block: `count` words from `start`, each giving an
/// in-page offset (low twelve bits) and a type (high four bits).
pub open spec fn block_entries(mem: Seq<u8>, page: int, start: int, count: int) -> Seq<RelocationEntry> {
    Seq::new(
        count as nat,
        |k: int|
            RelocationEntry {
                virtual_address_offset: (page + u16_le(mem, start + 2 * k) % 4096) as u64,
                kind: (u16_le(mem, start + 2 * k) / 4096) as u16,
            },
    )
}

/// The entries of the blocks from `pos` to `end`, or `None` when a block is
/// malformed. A block of size zero, or fewer than eight bytes left, ends the table.
pub open spec fn relocation_blocks(mem: Seq<u8>, pos: int, end: int) -> Option<Seq<RelocationEntry>>
    decreases end - pos,
{
    if pos + 8 > end {
        Some(seq![])
    } else {
        let size = u32_le(mem, pos + 4);
        if size == 0 {
            Some(seq![])
        } else if size < 8 || pos + size > end {
            None
        } else {
            match relocation_blocks(mem, pos + size, end) {
                Some(rest) => Some(block_entries(mem, u32_le(mem, pos), pos + 8, (size - 8) / 2) + rest),
                None => None,
            }
        }
    }
}

/// The relocation table of `img` as it stands in the laid-out region `mem`.
pub open spec fn relocation_table(mem: Seq<u8>, img: SourceImage) -> Option<Seq<RelocationEntry>> {
    let d = img.relocation_directory;
    if d.size == 0 {
        Some(seq![])
    } else if d.rva + d.size > mem.len() {
        None
    } else {
        relocation_blocks(mem, d.rva as int, d.rva + d.size)
    }
}

pub open spec fn is_dir64(e: RelocationEntry) -> bool {
    e.kind == REL_BASED_DIR64
}

/// A 64-bit entry addresses a field inside a region of `len` bytes.
pub open spec fn entry_in_bounds(e: RelocationEntry, len: int) -> bool {
    !is_dir64(e) || e.virtual_address_offset + 8 <= len
}

/// Every 64-bit entry of `entries` addresses a field inside `len` bytes.
pub open spec fn entries_in_bounds(entries: Seq<RelocationEntry>, len: int) -> bool {
    forall|i: int| 0 <= i < entries.len() ==> entry_in_bounds(#[trigger] entries[i], len)
}

/// `mem` after applying each entry in order: a 64-bit entry adds `delta`
/// (modulo 2^64) to the field at its offset; other types change nothing.
pub open spec fn relocated(mem: Seq<u8>, entries: Seq<RelocationEntry>, delta: u64) -> Seq<u8>
    decreases entries.len(),
{
    if entries.len() == 0 {
        mem
    } else {
        let prev = relocated(mem, entries.drop_last(), delta);
        let e = entries.last();
        if is_dir64(e) {
            let off = e.virtual_address_offset as int;
            write_at(prev, off, le_bytes64((u64_le(prev, off) as u64).wrapping_add(delta) as int))
        } else {
            prev
        }
    }
}

/// The distance from the preferred base to the granted one, modulo 2^64.
pub open spec fn relocation_delta(img: SourceImage, base: u64) -> u64 {
    base.wrapping_sub(img.preferred_base)
}

/// Reads the relocation table of `img` from the laid-out region `mem`.
/// Fails with `RelocationTableCorrupt` when the directory leaves the region,
/// or a block is shorter than its header or runs past the directory's end.
pub fn parse_relocations(mem: &Vec<u8>, img: &SourceImage) -> (r: Result<Vec<RelocationEntry>, MapError>)
    ensures
        match r {
            Ok(v) => relocation_table(mem@, *img) == Some(v@),
            Err(e) => relocation_table(mem@, *img) is None && e is RelocationTableCorrupt,
        },
{
    let d = img.relocation_directory;
    let mut entries: Vec<RelocationEntry> = Vec::new();
    if d.size == 0 {
        return Ok(entries);
    }
    let len = mem.len() as u64;
    let end = d.rva as u64 + d.size as u64;
    if end > len {
        return Err(MapError::RelocationTableCorrupt);
    }
    let mut pos = d.rva as u64;
    while pos + 8 <= end
        invariant
            d.rva <= pos <= end,
            end == d.rva + d.size,
            end <= len,
            len == mem.len(),
            relocation_table(mem@, *img) == match relocation_blocks(mem@, pos as int, end as int) {
                Some(rest) => Some(entries@ + rest),
                None => None::<Seq<RelocationEntry>>,
            },
        decreases end - pos,
    {
        let page = read_u32(mem, pos as usize);
        let size = read_u32(mem, (pos + 4) as usize) as u64;
        assert(size as int == u32_le(mem@, pos + 4));
        if size == 0 {
            assert(relocation_blocks(mem@, pos as int, end as int) == Some(Seq::<RelocationEntry>::empty()));
            assert(entries@ + Seq::<RelocationEntry>::empty() =~= entries@);
            return Ok(entries);
        }
        if size < 8 || pos + size > end {
            return Err(MapError::RelocationTableCorrupt);
        }
        let count = (size - 8) / 2;
        let ghost acc = entries@;
        let mut k: u64 = 0;
        while k < count
            invariant
                0 <= k <= count,
                count == (size - 8) / 2,
                pos + size <= end,
                end <= len,
                len == mem.len(),
                entries@ == acc + block_entries(mem@, page as int, pos + 8, k as int),
            decreases count - k,
        {
            let word = read_u16(mem, (pos + 8 + 2 * k) as usize);
            entries.push(RelocationEntry {
                virtual_address_offset: page as u64 + (word % 4096) as u64,
                kind: word / 4096,
            });
            k = k + 1;
            assert(entries@ =~= acc + block_entries(mem@, page as int, pos + 8, k as int));
        }
        assert(entries@ =~= acc + block_entries(mem@, page as int, pos + 8, count as int));
        assert(size as int == u32_le(mem@, pos + 4));
        assert(page as int == u32_le(mem@, pos as int));
        assert(count as int == (u32_le(mem@, pos + 4) - 8) / 2);
        assert(relocation_blocks(mem@, pos as int, end as int) == match relocation_blocks(mem@, pos + size, end as int) {
            Some(rest) => Some(block_entries(mem@, page as int, pos + 8, count as int) + rest),
            None => None::<Seq<RelocationEntry>>,
        });
        proof {
            match relocation_blocks(mem@, pos + size, end as int) {
                Some(rest) => {
                    assert(acc + (block_entries(mem@, page as int, pos + 8, count as int) + rest) =~= entries@ + rest);
                },
                None => {},
            }
        }
        pos = pos + size;
    }
    assert(relocation_blocks(mem@, pos as int, end as int) == Some(Seq::<RelocationEntry>::empty()));
    assert(entries@ + Seq::<RelocationEntry>::empty() =~= entries@);
    Ok(entries)
}

proof fn lemma_relocated_len(mem: Seq<u8>, entries: Seq<RelocationEntry>, delta: u64)
    requires
        forall|i: int| 0 <= i < entries.len() ==> entry_in_bounds(#[trigger] entries[i], mem.len() as int),
    ensures
        relocated(mem, entries, delta).len() == mem.len(),
    decreases entries.len(),
{
    if entries.len() > 0 {
        let p = entries.drop_last();
        assert forall|i: int| 0 <= i < p.len() implies entry_in_bounds(#[trigger] p[i], mem.len() as int) by {
            assert(p[i] == entries[i]);
        }
        lemma_relocated_len(mem, p, delta);
        assert(entries.last() == entries[entries.len() - 1]);
    }
}

/// Adds `delta` to the 64-bit field addressed by each 64-bit entry, in
/// order; other entry types are skipped. A zero delta changes nothing. With
/// a nonzero delta, an entry whose field leaves the region fails the whole
/// call with `RelocationTableCorrupt` before anything is written.
pub fn apply_relocations(mem: &mut Vec<u8>, entries: &Vec<RelocationEntry>, delta: u64) -> (r: Result<(), MapError>)
    ensures
        if delta == 0 {
            r is Ok && final(mem)@ == old(mem)@
        } else {
            match r {
                Ok(_) => entries_in_bounds(entries@, old(mem)@.len() as int)
                    && final(mem)@ == relocated(old(mem)@, entries@, delta),
                Err(err) => !entries_in_bounds(entries@, old(mem)@.len() as int)
                    && err is RelocationTableCorrupt && final(mem)@ == old(mem)@,
            }
        },
{
    if delta == 0 {
        return Ok(());
    }
    let n = entries.len();
    let len = mem.len() as u64;
    let mut i: usize = 0;
    while i < n
        invariant
            0 <= i <= n,
            n == entries@.len(),
            len == mem.len(),
            mem@ == old(mem)@,
            delta != 0,
            forall|j: int| 0 <= j < i ==> entry_in_bounds(#[trigger] entries@[j], len as int),
        decreases n - i,
    {
        let e = entries[i];
        if e.kind == REL_BASED_DIR64 && (e.virtual_address_offset > len || len - e.virtual_address_offset < 8) {
            assert(!entry_in_bounds(entries@[i as int], len as int));
            return Err(MapError::RelocationTableCorrupt);
        }
        i = i + 1;
    }
    let ghost start = mem@;
    let mut j: usize = 0;
    while j < n
        invariant
            0 <= j <= n,
            n == entries@.len(),
            len == start.len(),
            len == mem.len(),
            forall|k: int| 0 <= k < n ==> entry_in_bounds(#[trigger] entries@[k], len as int),
            mem@ == relocated(start, entries@.subrange(0, j as int), delta),
        decreases n - j,
    {
        let ghost before = entries@.subrange(0, j as int);
        let ghost after = entries@.subrange(0, j + 1);
        assert(after.drop_last() =~= before);
        assert(after.last() == entries@[j as int]);
        proof {
            assert forall|k: int| 0 <= k < before.len() implies entry_in_bounds(#[trigger] before[k], start.len() as int) by {
                assert(before[k] == entries@[k]);
            }
            lemma_relocated_len(start, before, delta);
        }
        let e = entries[j];
        if e.kind == REL_BASED_DIR64 {
            assert(entry_in_bounds(entries@[j as int], len as int));
            assert(mem@.len() == len);
            let off = e.virtual_address_offset as usize;
            let v = read_u64(mem, off);
            write_u64(mem, off, v.wrapping_add(delta));
        }
        j = j + 1;
    }
    assert(entries@.subrange(0, n as int) =~= entries@);
    Ok(())
}

/// Relocates the laid-out region `mem` of `img` for the granted base `base`:
/// with `base` equal to the preferred base nothing is read or written;
/// otherwise the relocation table is read and applied with the delta
/// `base - preferred_base` (modulo 2^64).
pub fn relocate_image(mem: &mut Vec<u8>, img: &SourceImage, base: u64) -> (r: Result<(), MapError>)
    ensures
        if relocation_delta(*img, base) == 0 {
            r is Ok && final(mem)@ == old(mem)@
        } else {
            match (r, relocation_table(old(mem)@, *img)) {
                (Ok(_), Some(t)) => entries_in_bounds(t, old(mem)@.len() as int)
                    && final(mem)@ == relocated(old(mem)@, t, relocation_delta(*img, base)),
                (Ok(_), None) => false,
                (Err(err), None) => err is RelocationTableCorrupt && final(mem)@ == old(mem)@,
                (Err(err), Some(t)) => err is RelocationTableCorrupt && final(mem)@ == old(mem)@
                    && !entries_in_bounds(t, old(mem)@.len() as int),
            }
        },
{
    let delta = base.wrapping_sub(img.preferred_base);
    if delta == 0 {
        return Ok(());
    }
    match parse_relocations(mem, img) {
        Ok(entries) => apply_relocations(mem, &entries, delta),
        Err(err) => Err(err),
    }
}


/// The 64-bit fields of no two 64-bit entries overlap.
pub open spec fn fields_disjoint(entries: Seq<RelocationEntry>) -> bool {
    forall|i: int, j: int|
        0 <= i < entries.len() && 0 <= j < entries.len() && i != j && is_dir64(#[trigger] entries[i])
            && is_dir64(#[trigger] entries[j]) ==> entries[i].virtual_address_offset + 8
            <= entries[j].virtual_address_offset || entries[j].virtual_address_offset + 8
            <= entries[i].virtual_address_offset
}

/// A byte outside every 64-bit entry's field keeps its value.
pub proof fn lemma_relocated_keeps_other_bytes(mem: Seq<u8>, entries: Seq<RelocationEntry>, delta: u64, k: int)
    requires
        entries_in_bounds(entries, mem.len() as int),
        0 <= k < mem.len(),
        forall|i: int|
            0 <= i < entries.len() && is_dir64(#[trigger] entries[i]) ==> k < entries[i].virtual_address_offset
                || entries[i].virtual_address_offset + 8 <= k,
    ensures
        relocated(mem, entries, delta)[k] == mem[k],
    decreases entries.len(),
{
    if entries.len() > 0 {
        let p = entries.drop_last();
        assert forall|i: int| 0 <= i < p.len() implies entry_in_bounds(#[trigger] p[i], mem.len() as int) by {
            assert(p[i] == entries[i]);
        }
        assert forall|i: int|
            0 <= i < p.len() && is_dir64(#[trigger] p[i]) implies k < p[i].virtual_address_offset
                || p[i].virtual_address_offset + 8 <= k by {
            assert(p[i] == entries[i]);
        }
        lemma_relocated_keeps_other_bytes(mem, p, delta, k);
        lemma_relocated_len(mem, p, delta);
        assert(entries.last() == entries[entries.len() - 1]);
    }
}

/// After relocating with `delta`, the field of every 64-bit entry holds
/// its original value plus `delta` (modulo 2^64), when all fields lie in
/// the region and no two of them overlap.
pub proof fn lemma_relocation_adds_delta(mem: Seq<u8>, entries: Seq<RelocationEntry>, delta: u64)
    requires
        entries_in_bounds(entries, mem.len() as int),
        fields_disjoint(entries),
    ensures
        forall|i: int|
            0 <= i < entries.len() && is_dir64(#[trigger] entries[i]) ==> u64_le(
                relocated(mem, entries, delta),
                entries[i].virtual_address_offset as int,
            ) == (u64_le(mem, entries[i].virtual_address_offset as int) as u64).wrapping_add(delta),
    decreases entries.len(),
{
    if entries.len() > 0 {
        let n = entries.len() - 1;
        let p = entries.drop_last();
        let e = entries[n];
        assert(entries.last() == e);
        assert forall|i: int| 0 <= i < p.len() implies entry_in_bounds(#[trigger] p[i], mem.len() as int) by {
            assert(p[i] == entries[i]);
        }
        assert forall|i: int, j: int|
            0 <= i < p.len() && 0 <= j < p.len() && i != j && is_dir64(#[trigger] p[i]) && is_dir64(
                #[trigger] p[j],
            ) implies p[i].virtual_address_offset + 8 <= p[j].virtual_address_offset
            || p[j].virtual_address_offset + 8 <= p[i].virtual_address_offset by {
            assert(p[i] == entries[i] && p[j] == entries[j]);
        }
        lemma_relocation_adds_delta(mem, p, delta);
        lemma_relocated_len(mem, p, delta);
        let prev = relocated(mem, p, delta);
        if is_dir64(e) {
            let off = e.virtual_address_offset as int;
            let v = (u64_le(prev, off) as u64).wrapping_add(delta);
            let b = le_bytes64(v as int);
            let cur = write_at(prev, off, b);
            assert(cur == relocated(mem, entries, delta));
            crate::bytes::lemma_le_bytes64_round_trip(v);
            assert forall|q: int| 0 <= q < 8 implies #[trigger] cur[off + q] == b[q] by {}
            crate::bytes::lemma_u64_le_same_bytes(cur, off, b, 0);
            // The last field was untouched by the earlier entries.
            assert forall|q: int| 0 <= q < 8 implies #[trigger] prev[off + q] == mem[off + q] by {
                assert forall|i: int|
                    0 <= i < p.len() && is_dir64(#[trigger] p[i]) implies off + q < p[i].virtual_address_offset
                        || p[i].virtual_address_offset + 8 <= off + q by {
                    assert(p[i] == entries[i]);
                }
                lemma_relocated_keeps_other_bytes(mem, p, delta, off + q);
            }
            crate::bytes::lemma_u64_le_same_bytes(prev, off, mem, off);
            // The earlier fields are untouched by the last write.
            assert forall|i: int|
                0 <= i < entries.len() && is_dir64(#[trigger] entries[i]) implies u64_le(
                cur,
                entries[i].virtual_address_offset as int,
            ) == (u64_le(mem, entries[i].virtual_address_offset as int) as u64).wrapping_add(delta) by {
                if i < n {
                    let o = entries[i].virtual_address_offset as int;
                    assert(p[i] == entries[i]);
                    assert forall|q: int| 0 <= q < 8 implies #[trigger] cur[o + q] == prev[o + q] by {}
                    crate::bytes::lemma_u64_le_same_bytes(cur, o, prev, o);
                }
            }
        } else {
            assert(relocated(mem, entries, delta) == prev);
            assert forall|i: int|
                0 <= i < entries.len() && is_dir64(#[trigger] entries[i]) implies u64_le(
                prev,
                entries[i].virtual_address_offset as int,
            ) == (u64_le(mem, entries[i].virtual_address_offset as int) as u64).wrapping_add(delta) by {
                assert(i < n);
                assert(p[i] == entries[i]);
            }
        }
    }
}

} // verus!
