use impulse::error::MapError;
use impulse::harden::{perform_post_mapping_cleanup, HardeningOptions, Protection};
use impulse::image::{validate_image, MACHINE_AMD64, MACHINE_I386};
use impulse::imports::{parse_imports, ImportSymbol, Resolution};
use impulse::layout::map_pe_sections;
use impulse::mapper::{ManualMapper, WaitStep};
use impulse::pipeline::{complete_image, entry_point_address, stage_image};
use impulse::reloc::{apply_relocations, relocate_image, RelocationEntry, REL_BASED_DIR64};

const NT: usize = 0x40;
const OPT: usize = NT + 24;
const TABLE: usize = OPT + 240;

struct Sec {
    name: &'static [u8],
    va: u32,
    vsize: u32,
    raw_off: u32,
    raw: Vec<u8>,
    ch: u32,
}

fn put16(b: &mut Vec<u8>, at: usize, v: u16) {
    b[at..at + 2].copy_from_slice(&v.to_le_bytes());
}

fn put32(b: &mut Vec<u8>, at: usize, v: u32) {
    b[at..at + 4].copy_from_slice(&v.to_le_bytes());
}

fn put64(b: &mut Vec<u8>, at: usize, v: u64) {
    b[at..at + 8].copy_from_slice(&v.to_le_bytes());
}

fn get64(b: &[u8], at: usize) -> u64 {
    let mut a = [0u8; 8];
    a.copy_from_slice(&b[at..at + 8]);
    u64::from_le_bytes(a)
}

/// Builds a 64-bit image file with the given sections and directories.
fn build_image(
    machine: u16,
    base: u64,
    size: u32,
    entry: u32,
    import_dir: (u32, u32),
    reloc_dir: (u32, u32),
    secs: &[Sec],
) -> Vec<u8> {
    let mut end = 0x200usize;
    for s in secs {
        end = end.max(s.raw_off as usize + s.raw.len());
    }
    let mut b = vec![0u8; end];
    put16(&mut b, 0, 0x5A4D);
    put32(&mut b, 0x3C, NT as u32);
    put32(&mut b, NT, 0x4550);
    put16(&mut b, NT + 4, machine);
    put16(&mut b, NT + 6, secs.len() as u16);
    put16(&mut b, NT + 20, 240);
    put16(&mut b, OPT, 0x20B);
    put32(&mut b, OPT + 16, entry);
    put64(&mut b, OPT + 24, base);
    put32(&mut b, OPT + 56, size);
    put32(&mut b, OPT + 60, 0x200);
    put32(&mut b, OPT + 120, import_dir.0);
    put32(&mut b, OPT + 124, import_dir.1);
    put32(&mut b, OPT + 152, reloc_dir.0);
    put32(&mut b, OPT + 156, reloc_dir.1);
    for (i, s) in secs.iter().enumerate() {
        let h = TABLE + 40 * i;
        b[h..h + s.name.len()].copy_from_slice(s.name);
        put32(&mut b, h + 8, s.vsize);
        put32(&mut b, h + 12, s.va);
        put32(&mut b, h + 16, s.raw.len() as u32);
        put32(&mut b, h + 20, s.raw_off);
        put32(&mut b, h + 36, s.ch);
        let o = s.raw_off as usize;
        b[o..o + s.raw.len()].copy_from_slice(&s.raw);
    }
    b
}

const EXEC_READ: u32 = 0x2000_0000 | 0x4000_0000;
const READ_WRITE: u32 = 0x4000_0000 | 0x8000_0000;
const PREFERRED: u64 = 0x1_4000_0000;

fn text_section() -> Sec {
    let mut raw: Vec<u8> = (0..0x200u32).map(|i| (i % 251) as u8).collect();
    put64(&mut raw, 0x10, PREFERRED + 0x1000);
    put64(&mut raw, 0x40, PREFERRED + 0x2345);
    Sec { name: b".text", va: 0x1000, vsize: 0x180, raw_off: 0x200, raw, ch: EXEC_READ }
}

/// An image whose .reloc section holds one block for page 0x1000 with two
/// 64-bit entries (0x10, 0x40) and one padding entry.
fn relocatable_image() -> Vec<u8> {
    let mut reloc = vec![0u8; 0x200];
    put32(&mut reloc, 0, 0x1000);
    put32(&mut reloc, 4, 14);
    put16(&mut reloc, 8, (10 << 12) | 0x10);
    put16(&mut reloc, 10, (10 << 12) | 0x40);
    put16(&mut reloc, 12, 0);
    let secs = [
        text_section(),
        Sec { name: b".reloc", va: 0x2000, vsize: 0x20, raw_off: 0x400, raw: reloc, ch: 0x4000_0000 },
    ];
    build_image(MACHINE_AMD64, PREFERRED, 0x3000, 0x1000, (0, 0), (0x2000, 14), &secs)
}

/// An image that imports `Foo` from `X.dll` by name and ordinal 7 from it too.
fn importing_image() -> Vec<u8> {
    let mut idata = vec![0u8; 0x200];
    put32(&mut idata, 0, 0x2040);
    put32(&mut idata, 12, 0x2080);
    put32(&mut idata, 16, 0x2060);
    put64(&mut idata, 0x40, 0x20A0);
    put64(&mut idata, 0x48, 0x8000_0000_0000_0007);
    put64(&mut idata, 0x60, 0x20A0);
    put64(&mut idata, 0x68, 0x8000_0000_0000_0007);
    idata[0x80..0x86].copy_from_slice(b"X.dll\0");
    idata[0xA2..0xA6].copy_from_slice(b"Foo\0");
    let secs = [
        text_section(),
        Sec { name: b".idata", va: 0x2000, vsize: 0x200, raw_off: 0x400, raw: idata, ch: READ_WRITE },
    ];
    build_image(MACHINE_AMD64, PREFERRED, 0x3000, 0, (0x2000, 40), (0, 0), &secs)
}

#[test]
fn truncated_buffer_is_malformed() {
    assert!(matches!(validate_image(&vec![0x4D, 0x5A, 0, 0], MACHINE_AMD64), Err(MapError::MalformedImage)));
    assert!(matches!(validate_image(&Vec::new(), MACHINE_AMD64), Err(MapError::MalformedImage)));
}

#[test]
fn wrong_signatures_are_malformed() {
    let mut b = relocatable_image();
    b[0] = b'X';
    assert!(matches!(validate_image(&b, MACHINE_AMD64), Err(MapError::MalformedImage)));
    let mut b = relocatable_image();
    b[NT] = b'X';
    assert!(matches!(validate_image(&b, MACHINE_AMD64), Err(MapError::MalformedImage)));
    let mut b = relocatable_image();
    put32(&mut b, 0x3C, 0xFFF0);
    assert!(matches!(validate_image(&b, MACHINE_AMD64), Err(MapError::MalformedImage)));
}

#[test]
fn other_architecture_is_rejected() {
    let b = relocatable_image();
    assert!(matches!(validate_image(&b, MACHINE_I386), Err(MapError::ArchitectureMismatch)));
}

#[test]
fn section_raw_data_past_the_file_is_malformed() {
    let mut b = relocatable_image();
    put32(&mut b, TABLE + 16, 0x10000);
    assert!(matches!(validate_image(&b, MACHINE_AMD64), Err(MapError::MalformedImage)));
}

#[test]
fn validator_parses_headers() {
    let b = relocatable_image();
    let img = validate_image(&b, MACHINE_AMD64).unwrap();
    assert_eq!(img.machine, MACHINE_AMD64);
    assert_eq!(img.preferred_base, PREFERRED);
    assert_eq!(img.total_virtual_size, 0x3000);
    assert_eq!(img.entry_point, 0x1000);
    assert_eq!(img.sections.len(), 2);
    assert_eq!(img.sections[0].name, b".text".to_vec());
    assert_eq!(img.sections[1].name, b".reloc".to_vec());
    assert_eq!(img.sections[0].virtual_address, 0x1000);
    assert_eq!(img.sections[0].raw_size, 0x200);
    assert!(img.sections[0].executable && !img.sections[0].writable);
    assert_eq!(img.relocation_directory.rva, 0x2000);
    assert_eq!(img.relocation_directory.size, 14);
}

#[test]
fn rejected_image_reserves_nothing() {
    let mut m = ManualMapper::new();
    let mut b = relocatable_image();
    b[1] = 0;
    assert!(matches!(m.begin(42, &b, MACHINE_AMD64), Err(MapError::MalformedImage)));
    assert!(m.allocations.is_empty());
    assert_eq!(m.target_process, 0);
    assert_eq!(m.get_image_size(), 0);
    assert!(matches!(m.begin(42, &relocatable_image(), MACHINE_I386), Err(MapError::ArchitectureMismatch)));
    assert!(m.allocations.is_empty());
}

#[test]
fn begin_records_the_run() {
    let mut m = ManualMapper::new();
    let img = m.begin(42, &relocatable_image(), MACHINE_AMD64).unwrap();
    assert_eq!(img.total_virtual_size, 0x3000);
    assert_eq!(m.target_process, 42);
    assert_eq!(m.get_original_base(), PREFERRED);
    assert_eq!(m.get_image_size(), 0x3000);
    m.image_allocated(0x7000_0000);
    assert_eq!(m.get_mapped_base(), 0x7000_0000);
    assert_eq!(m.allocations.len(), 1);
    assert_eq!(m.allocations[0].size, 0x3000);
    assert_eq!(m.allocations[0].process, 42);
}

#[test]
fn layout_copies_header_and_sections() {
    let b = relocatable_image();
    let img = validate_image(&b, MACHINE_AMD64).unwrap();
    let mem = map_pe_sections(&b, &img).unwrap();
    assert_eq!(mem.len(), 0x3000);
    assert_eq!(&mem[0..0x200], &b[0..0x200]);
    assert_eq!(&mem[0x1000..0x1200], &b[0x200..0x400]);
    assert!(mem[0x1200..0x2000].iter().all(|&x| x == 0));
    assert_eq!(&mem[0x2000..0x2200], &b[0x400..0x600]);
}

#[test]
fn section_outside_the_region_fails_the_write() {
    let mut b = relocatable_image();
    put32(&mut b, TABLE + 12, 0x2F00);
    let img = validate_image(&b, MACHINE_AMD64).unwrap();
    assert!(matches!(map_pe_sections(&b, &img), Err(MapError::RemoteWriteFailed)));
}

#[test]
fn preferred_base_needs_no_relocation() {
    let b = relocatable_image();
    let img = validate_image(&b, MACHINE_AMD64).unwrap();
    let st = stage_image(&b, &img, PREFERRED).unwrap();
    assert_eq!(&st.memory[0x1000..0x1200], &b[0x200..0x400]);
    assert_eq!(&st.memory[0x2000..0x2200], &b[0x400..0x600]);
    assert_eq!(get64(&st.memory, 0x1010), PREFERRED + 0x1000);
}

#[test]
fn other_base_adds_the_delta_to_each_field() {
    let b = relocatable_image();
    let img = validate_image(&b, MACHINE_AMD64).unwrap();
    let granted = 0x2_0000_0000u64;
    let st = stage_image(&b, &img, granted).unwrap();
    assert_eq!(get64(&st.memory, 0x1010), granted + 0x1000);
    assert_eq!(get64(&st.memory, 0x1040), granted + 0x2345);
    assert_eq!(st.memory[0x1000], b[0x200]);
    assert_eq!(st.memory[0x1018], b[0x218]);
    let lower = 0x1_0000_0000u64;
    let st = stage_image(&b, &img, lower).unwrap();
    assert_eq!(get64(&st.memory, 0x1010), lower + 0x1000);
}

#[test]
fn delta_wraps_modulo_two_to_the_64() {
    let mut mem = vec![0u8; 16];
    put64(&mut mem, 0, u64::MAX);
    let entries = vec![RelocationEntry { virtual_address_offset: 0, kind: REL_BASED_DIR64 }];
    apply_relocations(&mut mem, &entries, 2).unwrap();
    assert_eq!(get64(&mem, 0), 1);
}

#[test]
fn zero_delta_touches_nothing_even_out_of_bounds() {
    let mut mem = vec![7u8; 16];
    let entries = vec![RelocationEntry { virtual_address_offset: 100, kind: REL_BASED_DIR64 }];
    assert!(apply_relocations(&mut mem, &entries, 0).is_ok());
    assert_eq!(mem, vec![7u8; 16]);
    assert!(matches!(apply_relocations(&mut mem, &entries, 1), Err(MapError::RelocationTableCorrupt)));
    assert_eq!(mem, vec![7u8; 16]);
}

#[test]
fn corrupt_relocation_block_is_reported() {
    let b = relocatable_image();
    let img = validate_image(&b, MACHINE_AMD64).unwrap();
    let mut mem = map_pe_sections(&b, &img).unwrap();
    put32(&mut mem, 0x2004, 4);
    let before = mem.clone();
    assert!(matches!(relocate_image(&mut mem, &img, 0x2_0000_0000), Err(MapError::RelocationTableCorrupt)));
    assert_eq!(mem, before);
    assert!(relocate_image(&mut mem, &img, PREFERRED).is_ok());
}

#[test]
fn text_section_ends_execute_read() {
    let secs = [Sec {
        name: b".text",
        va: 0x1000,
        vsize: 0x200,
        raw_off: 0x200,
        raw: vec![0xC3; 0x200],
        ch: EXEC_READ,
    }];
    let b = build_image(MACHINE_AMD64, PREFERRED, 0x2000, 0x1000, (0, 0), (0, 0), &secs);
    let img = validate_image(&b, MACHINE_AMD64).unwrap();
    let mut st = stage_image(&b, &img, 0x5000_0000).unwrap();
    let opts = HardeningOptions { clear_header: true, clear_sections: true, adjust_protections: true };
    let plan = complete_image(&mut st, &img, &Vec::new(), opts).unwrap();
    assert_eq!(plan.len(), 1);
    assert_eq!(plan[0].offset, 0x1000);
    assert_eq!(plan[0].size, 0x200);
    assert_eq!(plan[0].protection, Protection::ExecuteRead);
    assert!(st.memory[0..0x1000].iter().all(|&x| x == 0));
    assert_eq!(st.memory[0x1000], 0xC3);
}

#[test]
fn protections_follow_characteristics() {
    let secs = [
        Sec { name: b".data", va: 0x1000, vsize: 0x10, raw_off: 0x200, raw: vec![1; 0x10], ch: READ_WRITE },
        Sec { name: b".rdata", va: 0x2000, vsize: 0x10, raw_off: 0x210, raw: vec![2; 0x10], ch: 0x4000_0000 },
        Sec { name: b".bss", va: 0x3000, vsize: 0, raw_off: 0, raw: Vec::new(), ch: READ_WRITE },
        Sec { name: b".wx", va: 0x3000, vsize: 0x10, raw_off: 0x220, raw: vec![3; 0x10], ch: READ_WRITE | EXEC_READ },
    ];
    let b = build_image(MACHINE_AMD64, PREFERRED, 0x4000, 0, (0, 0), (0, 0), &secs);
    let img = validate_image(&b, MACHINE_AMD64).unwrap();
    let mut mem = map_pe_sections(&b, &img).unwrap();
    let opts = HardeningOptions { clear_header: false, clear_sections: false, adjust_protections: true };
    let plan = perform_post_mapping_cleanup(&mut mem, &img, opts);
    let got: Vec<(u64, Protection)> = plan.iter().map(|c| (c.offset, c.protection)).collect();
    assert_eq!(
        got,
        vec![(0x1000, Protection::ReadWrite), (0x2000, Protection::ReadOnly), (0x3000, Protection::ReadWrite)]
    );
    assert_eq!(mem[0], 0x4D);
}

#[test]
fn unneeded_sections_are_zeroed() {
    let b = relocatable_image();
    let img = validate_image(&b, MACHINE_AMD64).unwrap();
    let mut mem = map_pe_sections(&b, &img).unwrap();
    assert_ne!(mem[0x2004], 0);
    let opts = HardeningOptions { clear_header: false, clear_sections: true, adjust_protections: false };
    let plan = perform_post_mapping_cleanup(&mut mem, &img, opts);
    assert!(plan.is_empty());
    assert!(mem[0x2000..0x2020].iter().all(|&x| x == 0));
    assert_eq!(&mem[0x1000..0x1200], &b[0x200..0x400]);
    assert_eq!(mem[0], 0x4D);
}

#[test]
fn imports_are_read_and_bound() {
    let b = importing_image();
    let img = validate_image(&b, MACHINE_AMD64).unwrap();
    let mem = map_pe_sections(&b, &img).unwrap();
    let refs = parse_imports(&mem, &img).unwrap();
    assert_eq!(refs.len(), 2);
    assert_eq!(refs[0].library_name, b"X.dll".to_vec());
    assert!(matches!(&refs[0].symbol, ImportSymbol::Name(n) if n == b"Foo"));
    assert_eq!(refs[0].iat_slot_offset, 0x2060);
    assert!(matches!(refs[1].symbol, ImportSymbol::Ordinal(7)));
    assert_eq!(refs[1].iat_slot_offset, 0x2068);
}

/// A stand-in for the module loader and symbol lookup of the target.
fn fake_resolve(library: &[u8], symbol: &ImportSymbol) -> Resolution {
    if library != b"X.dll" {
        return Resolution::LibraryNotLoaded;
    }
    match symbol {
        ImportSymbol::Name(n) if n == b"Foo" => Resolution::Address(0xDEAD_BEEF_0000_1234),
        ImportSymbol::Ordinal(7) => Resolution::Address(0x1111_2222),
        _ => Resolution::SymbolNotFound,
    }
}

#[test]
fn resolved_address_lands_in_the_slot() {
    let b = importing_image();
    let img = validate_image(&b, MACHINE_AMD64).unwrap();
    let mut st = stage_image(&b, &img, PREFERRED).unwrap();
    let resolved: Vec<Resolution> =
        st.imports.iter().map(|r| fake_resolve(&r.library_name, &r.symbol)).collect();
    assert_eq!(get64(&st.memory, 0x2060), 0x20A0);
    let opts = HardeningOptions { clear_header: true, clear_sections: true, adjust_protections: true };
    complete_image(&mut st, &img, &resolved, opts).unwrap();
    assert_eq!(get64(&st.memory, 0x2060), 0xDEAD_BEEF_0000_1234);
    assert_eq!(get64(&st.memory, 0x2068), 0x1111_2222);
    assert_eq!(get64(&st.memory, 0x2040), 0x20A0);
}

#[test]
fn failed_resolution_names_the_import() {
    let b = importing_image();
    let img = validate_image(&b, MACHINE_AMD64).unwrap();
    let mut st = stage_image(&b, &img, PREFERRED).unwrap();
    let before = st.memory.clone();
    let opts = HardeningOptions { clear_header: true, clear_sections: true, adjust_protections: true };
    let missing = vec![Resolution::Address(5), Resolution::SymbolNotFound];
    match complete_image(&mut st, &img, &missing, opts) {
        Err(MapError::ImportSymbolResolutionFailed(lib, ImportSymbol::Ordinal(7))) => assert_eq!(lib, b"X.dll".to_vec()),
        other => panic!("unexpected {:?}", other),
    }
    assert_eq!(st.memory, before);
    let unloaded = vec![Resolution::LibraryNotLoaded, Resolution::Address(5)];
    match complete_image(&mut st, &img, &unloaded, opts) {
        Err(MapError::ImportLibraryLoadFailed(lib)) => assert_eq!(lib, b"X.dll".to_vec()),
        other => panic!("unexpected {:?}", other),
    }
}

#[test]
fn import_name_outside_the_region_is_malformed() {
    let b = importing_image();
    let img = validate_image(&b, MACHINE_AMD64).unwrap();
    let mut mem = map_pe_sections(&b, &img).unwrap();
    put32(&mut mem, 0x200C, 0x9000);
    assert!(matches!(parse_imports(&mem, &img), Err(MapError::MalformedImage)));
}

#[test]
fn entry_point_is_base_plus_offset() {
    let b = relocatable_image();
    let img = validate_image(&b, MACHINE_AMD64).unwrap();
    assert_eq!(entry_point_address(&img, 0x7000_0000), Some(0x7000_1000));
    let b = importing_image();
    let img = validate_image(&b, MACHINE_AMD64).unwrap();
    assert_eq!(entry_point_address(&img, 0x7000_0000), None);
}

#[test]
fn cleanup_twice_frees_once() {
    let mut m = ManualMapper::new();
    m.begin(9, &relocatable_image(), MACHINE_AMD64).unwrap();
    m.image_allocated(0x1000_0000);
    m.scratch_allocated(0x2000_0000, 64);
    let first = m.cleanup_on_failure();
    assert_eq!(first.len(), 2);
    assert_eq!(first[0].base, 0x1000_0000);
    assert_eq!(first[1].base, 0x2000_0000);
    assert_eq!(first[1].size, 64);
    let second = m.cleanup_on_failure();
    assert!(second.is_empty());
    assert_eq!(m.get_mapped_base(), 0);
}

#[test]
fn silent_remote_side_times_out_and_frees() {
    let mut m = ManualMapper::new();
    m.max_polls = 5;
    m.begin(9, &relocatable_image(), MACHINE_AMD64).unwrap();
    m.image_allocated(0x1000_0000);
    let mut pending = 0;
    let freed = loop {
        match m.poll_completion(false) {
            WaitStep::Pending => pending += 1,
            WaitStep::TimedOut(freed) => break freed,
            WaitStep::Completed => panic!("never signalled"),
        }
        assert!(pending < 5);
    };
    assert_eq!(pending, 4);
    assert_eq!(freed.len(), 1);
    assert_eq!(freed[0].base, 0x1000_0000);
    assert!(m.allocations.is_empty());
    let (result, rest) = m.finish(Err(MapError::MappingTimeout));
    assert!(!result.success);
    assert!(result.mapped_base.is_none());
    assert!(matches!(result.error, Some(MapError::MappingTimeout)));
    assert!(rest.is_empty());
}

#[test]
fn signal_completes_and_success_keeps_allocations() {
    let mut m = ManualMapper::new();
    m.begin(9, &relocatable_image(), MACHINE_AMD64).unwrap();
    m.image_allocated(0x1000_0000);
    assert!(matches!(m.poll_completion(false), WaitStep::Pending));
    assert!(matches!(m.poll_completion(true), WaitStep::Completed));
    let (result, freed) = m.finish(Ok(0x1000_0000));
    assert!(result.success);
    assert_eq!(result.mapped_base, Some(0x1000_0000));
    assert!(freed.is_empty());
}

#[test]
fn configure_sets_the_hardening_steps() {
    let mut m = ManualMapper::new();
    let o = m.options();
    assert!(o.clear_header && o.clear_sections && o.adjust_protections);
    m.configure(false, true, false);
    let o = m.options();
    assert!(!o.clear_header && o.clear_sections && !o.adjust_protections);
}

#[test]
fn finish_keeps_or_clears_the_mapped_base() {
    let mut m = ManualMapper::new();
    m.begin(9, &relocatable_image(), MACHINE_AMD64).unwrap();
    m.image_allocated(0x1000_0000);
    assert_eq!(m.get_original_base(), PREFERRED);
    let (result, _) = m.finish(Ok(0x1000_0000));
    assert_eq!(result.mapped_base, Some(m.get_mapped_base()));
    assert_eq!(m.get_original_base(), PREFERRED);

    let mut m = ManualMapper::new();
    m.begin(9, &relocatable_image(), MACHINE_AMD64).unwrap();
    let (result, freed) = m.finish(Err(MapError::RemoteAllocationFailed(8)));
    assert!(matches!(result.error, Some(MapError::RemoteAllocationFailed(8))));
    assert!(freed.is_empty());
    assert_eq!(m.get_mapped_base(), 0);
}
