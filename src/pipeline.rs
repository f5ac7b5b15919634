//! The image's region from file to ready-to-run: layout, relocation, import
//! reading, then (once the imports are resolved) binding and hardening.
use vstd::prelude::*;

use crate::error::MapError;
use crate::harden::{hardened, in_cleared_section, lemma_hardened_keeps_other_bytes, perform_post_mapping_cleanup, protection_plan, HardeningOptions, ProtectionChange};
use crate::image::SourceImage;
use crate::imports::{bind_fails_at, bind_imports, bound, first_bind_error, in_some_slot, lemma_bound_keeps_other_bytes, ImportView, import_table, parse_imports, views, ImportReference, Resolution};
use crate::layout::{
    header_copy_len, laid_out, layout_fits, lemma_section_bytes_written, map_pe_sections, section_fits,
    written_ranges_disjoint,
};
use crate::reloc::{entries_in_bounds, relocate_image, relocated, relocation_delta, relocation_table};

verus! {

/// The region after layout and relocation for the granted base `base`, or
/// `None` when the layout leaves the region or the relocation table is corrupt.
pub open spec fn staged_memory(data: Seq<u8>, img: SourceImage, base: u64) -> Option<Seq<u8>> {
    if !layout_fits(data, img) {
        None
    } else {
        let m = laid_out(data, img);
        if relocation_delta(img, base) == 0 {
            Some(m)
        } else {
            match relocation_table(m, img) {
                Some(t) => if entries_in_bounds(t, m.len() as int) {
                    Some(relocated(m, t, relocation_delta(img, base)))
                } else {
                    None
                },
                None => None,
            }
        }
    }
}

/// A region laid out and relocated, with the imports it still needs.
#[derive(Debug)]
pub struct StagedImage {
    pub memory: Vec<u8>,
    pub imports: Vec<ImportReference>,
}

/// Lays the image out for the granted base `base`, relocates it (nothing is
/// relocated when `base` is the preferred base), and reads its imports.
pub fn stage_image(data: &Vec<u8>, img: &SourceImage, base: u64) -> (r: Result<StagedImage, MapError>)
    requires
        img.raw_data_within(data@.len() as int),
    ensures
        match r {
            Ok(st) => staged_memory(data@, *img, base) == Some(st.memory@) && import_table(
                st.memory@,
                *img,
            ) == Some(views(st.imports@)),
            Err(e) => if !layout_fits(data@, *img) {
                e is RemoteWriteFailed
            } else {
                match staged_memory(data@, *img, base) {
                    None => e is RelocationTableCorrupt,
                    Some(m) => import_table(m, *img) is None && e is MalformedImage,
                }
            },
        },
{
    let mut memory = match map_pe_sections(data, img) {
        Ok(m) => m,
        Err(e) => {
            return Err(e);
        },
    };
    match relocate_image(&mut memory, img, base) {
        Ok(_) => {},
        Err(e) => {
            return Err(e);
        },
    }
    match parse_imports(&memory, img) {
        Ok(imports) => Ok(StagedImage { memory, imports }),
        Err(e) => Err(e),
    }
}

/// Binds the resolved imports into the staged region, then runs the
/// configured hardening steps; returns the protection changes to apply.
/// A failed import leaves the region as it was.
pub fn complete_image(
    st: &mut StagedImage,
    img: &SourceImage,
    resolved: &Vec<Resolution>,
    opts: HardeningOptions,
) -> (r: Result<Vec<ProtectionChange>, MapError>)
    requires
        old(st).imports@.len() == resolved@.len(),
    ensures
        final(st).imports@ == old(st).imports@,
        match r {
            Ok(plan) => (forall|i: int|
                0 <= i < old(st).imports@.len() ==> !#[trigger] bind_fails_at(
                    views(old(st).imports@),
                    resolved@,
                    old(st).memory@.len() as int,
                    i,
                )) && final(st).memory@ == hardened(
                bound(old(st).memory@, views(old(st).imports@), resolved@),
                *img,
                opts,
            ) && plan@ == if opts.adjust_protections {
                protection_plan(img.sections@)
            } else {
                Seq::<ProtectionChange>::empty()
            },
            Err(e) => final(st).memory@ == old(st).memory@ && first_bind_error(
                views(old(st).imports@),
                resolved@,
                old(st).memory@.len() as int,
                e,
            ),
        },
{
    match bind_imports(&mut st.memory, &st.imports, resolved) {
        Ok(_) => {},
        Err(e) => {
            return Err(e);
        },
    }
    Ok(perform_post_mapping_cleanup(&mut st.memory, img, opts))
}

/// Where the entry point is called: `base + entry_point`, or nowhere when
/// the image declares none.
pub fn entry_point_address(img: &SourceImage, base: u64) -> (r: Option<u64>)
    ensures
        r == if img.entry_point == 0 {
            None
        } else {
            Some(base.wrapping_add(img.entry_point as u64))
        },
{
    if img.entry_point == 0 {
        None
    } else {
        Some(base.wrapping_add(img.entry_point as u64))
    }
}

/// At the preferred base nothing is relocated, and each section's bytes in
/// the staged region equal its raw bytes in the file, when the sections'
/// written ranges do not overlap.
pub proof fn lemma_preferred_base_round_trip(data: Seq<u8>, img: SourceImage)
    requires
        layout_fits(data, img),
        img.raw_data_within(data.len() as int),
        written_ranges_disjoint(img.sections@),
    ensures
        relocation_delta(img, img.preferred_base) == 0,
        staged_memory(data, img, img.preferred_base) == Some(laid_out(data, img)),
        forall|i: int|
            0 <= i < img.sections@.len() && (#[trigger] img.sections@[i]).raw_size > 0 ==> laid_out(
                data,
                img,
            ).subrange(
                img.sections@[i].virtual_address as int,
                img.sections@[i].virtual_address + img.sections@[i].raw_size,
            ) == data.subrange(
                img.sections@[i].raw_offset as int,
                img.sections@[i].raw_offset + img.sections@[i].raw_size,
            ),
{
    let secs = img.sections@;
    let size = img.total_virtual_size as int;
    let mem0 = crate::bytes::write_at(
        crate::bytes::zeros(size),
        0,
        data.subrange(0, crate::layout::header_copy_len(data.len() as int)),
    );
    assert(mem0.len() == size);
    assert forall|i: int| 0 <= i < secs.len() && (#[trigger] secs[i]).raw_size > 0 implies laid_out(
        data,
        img,
    ).subrange(secs[i].virtual_address as int, secs[i].virtual_address + secs[i].raw_size)
        == data.subrange(secs[i].raw_offset as int, secs[i].raw_offset + secs[i].raw_size) by {
        let s = secs[i];
        assert forall|k: int| 0 <= k < secs.len() implies section_fits(#[trigger] secs[k], mem0.len() as int) by {}
        crate::layout::lemma_laid_out_len(data, img);
        assert(section_fits(s, size));
        let whole = laid_out(data, img);
        let got = whole.subrange(s.virtual_address as int, s.virtual_address + s.raw_size);
        let want = data.subrange(s.raw_offset as int, s.raw_offset + s.raw_size);
        assert forall|q: int| 0 <= q < s.raw_size implies #[trigger] got[q] == want[q] by {
            lemma_section_bytes_written(mem0, data, secs, i, q);
        }
        assert(got =~= want);
    }
}

/// At the preferred base, after the imports are bound and the image is
/// hardened, each byte of a section's raw data in the region still equals
/// the file's byte, unless it lies in an address-table slot, in the cleared
/// header prefix, or in a cleared section; provided the sections' written
/// ranges do not overlap and every import was bound.
pub proof fn lemma_preferred_base_mapping_keeps_sections(
    data: Seq<u8>,
    img: SourceImage,
    refs: Seq<ImportView>,
    res: Seq<Resolution>,
    opts: HardeningOptions,
    i: int,
    q: int,
)
    requires
        layout_fits(data, img),
        img.raw_data_within(data.len() as int),
        written_ranges_disjoint(img.sections@),
        res.len() == refs.len(),
        forall|j: int| 0 <= j < refs.len() ==> 0 <= #[trigger] refs[j].slot,
        forall|j: int| 0 <= j < refs.len() ==> !#[trigger] bind_fails_at(refs, res, img.total_virtual_size as int, j),
        0 <= i < img.sections@.len(),
        img.sections@[i].raw_size > 0,
        0 <= q < img.sections@[i].raw_size,
        !in_some_slot(refs, img.sections@[i].virtual_address + q),
        opts.clear_header ==> img.sections@[i].virtual_address + q >= header_copy_len(img.total_virtual_size as int),
        opts.clear_sections ==> !in_cleared_section(img.sections@, img.sections@[i].virtual_address + q),
    ensures
        staged_memory(data, img, img.preferred_base) == Some(laid_out(data, img)),
        hardened(bound(laid_out(data, img), refs, res), img, opts)[img.sections@[i].virtual_address + q]
            == data[img.sections@[i].raw_offset + q],
{
    lemma_preferred_base_round_trip(data, img);
    crate::layout::lemma_laid_out_len(data, img);
    let s = img.sections@[i];
    let k = s.virtual_address + q;
    let m = laid_out(data, img);
    assert(section_fits(s, img.total_virtual_size as int));
    assert(m.subrange(s.virtual_address as int, s.virtual_address + s.raw_size)[q] == m[k]);
    assert(m[k] == data[s.raw_offset + q]);
    assert forall|j: int| 0 <= j < refs.len() implies 0 <= #[trigger] refs[j].slot && refs[j].slot + 8 <= m.len() by {
        assert(!bind_fails_at(refs, res, img.total_virtual_size as int, j));
    }
    lemma_bound_keeps_other_bytes(m, refs, res, k);
    lemma_hardened_keeps_other_bytes(bound(m, refs, res), img, opts, k);
}

} // verus!
