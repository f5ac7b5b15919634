//! The import table: which library symbols the image needs, and where the
//! resolved addresses go.
use vstd::prelude::*;

use crate::bytes::{le_bytes64, read_u32, read_u64, u32_le, u64_le, write_at, write_u64};
use crate::error::MapError;
use crate::image::{SourceImage, str_end};

verus! {

/// Size of one import descriptor.
pub const IMPORT_DESCRIPTOR_SIZE: u64 = 20;
/// A thunk with this bit set imports by ordinal.
pub const ORDINAL_FLAG: u64 = 0x8000_0000_0000_0000;

/// How an import names its symbol.
#[derive(Debug)]
pub enum ImportSymbol {
    Ordinal(u16),
    Name(Vec<u8>),
}

/// The mathematical value of an `ImportSymbol`.
pub enum SymbolView {
    Ordinal(u16),
    Name(Seq<u8>),
}

impl View for ImportSymbol {
    type V = SymbolView;

    open spec fn view(&self) -> SymbolView {
        match self {
            ImportSymbol::Ordinal(n) => SymbolView::Ordinal(*n),
            ImportSymbol::Name(s) => SymbolView::Name(s@),
        }
    }
}

/// One imported symbol: the library that exports it, the symbol, and the
/// offset (from the image base) of the address-table slot that receives it.
#[derive(Debug)]
pub struct ImportReference {
    pub library_name: Vec<u8>,
    pub symbol: ImportSymbol,
    pub iat_slot_offset: u64,
}

/// The mathematical value of an `ImportReference`.
pub struct ImportView {
    pub library: Seq<u8>,
    pub symbol: SymbolView,
    pub slot: int,
}

impl View for ImportReference {
    type V = ImportView;

    open spec fn view(&self) -> ImportView {
        ImportView { library: self.library_name@, symbol: self.symbol@, slot: self.iat_slot_offset as int }
    }
}

/// The views of a sequence of references.
pub open spec fn views(s: Seq<ImportReference>) -> Seq<ImportView> {
    Seq::new(s.len(), |i: int| s[i]@)
}

/// The zero-terminated string at `pos`, if a zero byte follows it in `mem`.
pub open spec fn c_string(mem: Seq<u8>, pos: int) -> Option<Seq<u8>> {
    if 0 <= pos && str_end(mem, pos, mem.len() as int) < mem.len() {
        Some(mem.subrange(pos, str_end(mem, pos, mem.len() as int)))
    } else {
        None
    }
}

/// The symbol a nonzero thunk value names: an ordinal (low sixteen bits)
/// when the top bit is set, else the name of the hint/name entry at the
/// offset in its low 31 bits (the name follows a two-byte hint).
pub open spec fn thunk_symbol(mem: Seq<u8>, t: int) -> Option<SymbolView> {
    if t >= ORDINAL_FLAG {
        Some(SymbolView::Ordinal((t % 0x1_0000) as u16))
    } else {
        match c_string(mem, t % 0x8000_0000 + 2) {
            Some(n) => Some(SymbolView::Name(n)),
            None => None,
        }
    }
}

/// The imports of library `lib` whose thunks start at `thunk` and whose
/// slots start at `slot`, up to the zero thunk; `None` when something lies
/// outside `mem`.
pub open spec fn thunk_imports(mem: Seq<u8>, lib: Seq<u8>, thunk: int, slot: int) -> Option<Seq<ImportView>>
    decreases mem.len() - thunk,
{
    if thunk < 0 || thunk + 8 > mem.len() {
        None
    } else if u64_le(mem, thunk) == 0 {
        Some(seq![])
    } else if slot < 0 || slot + 8 > mem.len() {
        None
    } else {
        match thunk_symbol(mem, u64_le(mem, thunk)) {
            None => None,
            Some(sym) => match thunk_imports(mem, lib, thunk + 8, slot + 8) {
                Some(rest) => Some(seq![ImportView { library: lib, symbol: sym, slot }] + rest),
                None => None,
            },
        }
    }
}

/// The imports of the descriptors from `pos` on, up to the descriptor with
/// a zero name; `None` when something lies outside `mem`.
pub open spec fn descriptor_imports(mem: Seq<u8>, pos: int) -> Option<Seq<ImportView>>
    decreases mem.len() - pos,
{
    if pos < 0 || pos + IMPORT_DESCRIPTOR_SIZE > mem.len() {
        None
    } else if u32_le(mem, pos + 12) == 0 {
        Some(seq![])
    } else {
        let first = u32_le(mem, pos + 16);
        let thunk = if u32_le(mem, pos) != 0 {
            u32_le(mem, pos)
        } else {
            first
        };
        match c_string(mem, u32_le(mem, pos + 12)) {
            None => None,
            Some(lib) => match thunk_imports(mem, lib, thunk, first) {
                None => None,
                Some(these) => match descriptor_imports(mem, pos + IMPORT_DESCRIPTOR_SIZE) {
                    Some(rest) => Some(these + rest),
                    None => None,
                },
            },
        }
    }
}

/// The imports of `img` as its import table in the laid-out region `mem`
/// lists them; an image without an import directory imports nothing.
pub open spec fn import_table(mem: Seq<u8>, img: SourceImage) -> Option<Seq<ImportView>> {
    if img.import_directory.size == 0 {
        Some(seq![])
    } else {
        descriptor_imports(mem, img.import_directory.rva as int)
    }
}

/// Reads the zero-terminated string at `pos`.
fn read_c_string(mem: &Vec<u8>, pos: u64) -> (r: Option<Vec<u8>>)
    ensures
        match (r, c_string(mem@, pos as int)) {
            (Some(v), Some(s)) => v@ == s,
            (None, None) => true,
            _ => false,
        },
{
    let len = mem.len() as u64;
    if pos >= len {
        return None;
    }
    let mut out: Vec<u8> = Vec::new();
    let mut i: u64 = pos;
    while i < len && mem[i as usize] != 0
        invariant
            pos <= i <= len,
            len == mem.len(),
            str_end(mem@, pos as int, len as int) == str_end(mem@, i as int, len as int),
            out@ == mem@.subrange(pos as int, i as int),
        decreases len - i,
    {
        out.push(mem[i as usize]);
        i = i + 1;
        assert(out@ =~= mem@.subrange(pos as int, i as int));
    }
    if i == len {
        None
    } else {
        Some(out)
    }
}

/// Reads the imports of one library from its thunk array, appending them to `out`.
fn read_thunks(
    mem: &Vec<u8>,
    lib: &Vec<u8>,
    thunk_start: u64,
    slot_start: u64,
    out: &mut Vec<ImportReference>,
) -> (ok: bool)
    requires
        thunk_start < 0x1_0000_0000,
        slot_start < 0x1_0000_0000,
    ensures
        match thunk_imports(mem@, lib@, thunk_start as int, slot_start as int) {
            Some(s) => ok && views(final(out)@) == views(old(out)@) + s,
            None => !ok,
        },
{
    let len = mem.len() as u64;
    let mut thunk = thunk_start;
    let mut slot = slot_start;
    let ghost acc = views(out@);
    loop
        invariant
            len == mem.len(),
            thunk_start <= thunk <= thunk_start + len + 8,
            thunk - thunk_start == slot - slot_start,
            acc == views(old(out)@),
            thunk_imports(mem@, lib@, thunk_start as int, slot_start as int) == match thunk_imports(
                mem@,
                lib@,
                thunk as int,
                slot as int,
            ) {
                Some(rest) => Some(views(out@).subrange(acc.len() as int, views(out@).len() as int) + rest),
                None => None::<Seq<ImportView>>,
            },
            views(out@).subrange(0, acc.len() as int) == acc,
            acc.len() <= views(out@).len(),
        decreases thunk_start + len + 8 - thunk,
    {
        if thunk > len || len - thunk < 8 {
            return false;
        }
        let t = read_u64(mem, thunk as usize);
        if t == 0 {
            assert(thunk_imports(mem@, lib@, thunk as int, slot as int) == Some(Seq::<ImportView>::empty()));
            let ghost done = views(out@).subrange(acc.len() as int, views(out@).len() as int);
            assert(done + Seq::<ImportView>::empty() =~= done);
            assert(views(out@) =~= acc + done);
            return true;
        }
        if slot > len || len - slot < 8 {
            return false;
        }
        let symbol = if t >= ORDINAL_FLAG {
            ImportSymbol::Ordinal((t % 0x1_0000) as u16)
        } else {
            match read_c_string(mem, t % 0x8000_0000 + 2) {
                Some(name) => ImportSymbol::Name(name),
                None => {
                    return false;
                },
            }
        };
        let ghost before = views(out@);
        out.push(ImportReference { library_name: copy_bytes(lib), symbol, iat_slot_offset: slot });
        proof {
            let now = views(out@);
            assert(now =~= before.push(out@[out@.len() - 1]@));
            assert(now.subrange(0, acc.len() as int) =~= before.subrange(0, acc.len() as int));
            let mid = before.subrange(acc.len() as int, before.len() as int);
            assert(now.subrange(acc.len() as int, now.len() as int) =~= mid.push(now[now.len() - 1]));
            match thunk_imports(mem@, lib@, thunk + 8, slot + 8) {
                Some(rest) => {
                    assert(mid + (seq![now[now.len() - 1]] + rest) =~= mid.push(now[now.len() - 1]) + rest);
                },
                None => {},
            }
        }
        thunk = thunk + 8;
        slot = slot + 8;
    }
}

/// Reads the imports of `img` from its laid-out region `mem`: each
/// descriptor up to the one with a zero name gives a library name and a
/// thunk array (the lookup array when present, else the address table);
/// each nonzero thunk gives one import whose slot is the matching entry of
/// the address table. Fails with `MalformedImage` when a descriptor, name,
/// thunk or slot lies outside the region.
pub fn parse_imports(mem: &Vec<u8>, img: &SourceImage) -> (r: Result<Vec<ImportReference>, MapError>)
    ensures
        match r {
            Ok(v) => import_table(mem@, *img) == Some(views(v@)),
            Err(e) => import_table(mem@, *img) is None && e is MalformedImage,
        },
{
    let mut out: Vec<ImportReference> = Vec::new();
    if img.import_directory.size == 0 {
        assert(views(out@) =~= Seq::<ImportView>::empty());
        return Ok(out);
    }
    let len = mem.len() as u64;
    let start = img.import_directory.rva as u64;
    let mut pos = start;
    assert(views(out@) =~= Seq::<ImportView>::empty());
    loop
        invariant
            len == mem.len(),
            start == img.import_directory.rva,
            img.import_directory.size != 0,
            start <= pos <= start + len + IMPORT_DESCRIPTOR_SIZE,
            import_table(mem@, *img) == match descriptor_imports(mem@, pos as int) {
                Some(rest) => Some(views(out@) + rest),
                None => None::<Seq<ImportView>>,
            },
        decreases start + len + IMPORT_DESCRIPTOR_SIZE - pos,
    {
        if pos > len || len - pos < IMPORT_DESCRIPTOR_SIZE {
            return Err(MapError::MalformedImage);
        }
        let p = pos as usize;
        let name = read_u32(mem, p + 12);
        if name == 0 {
            assert(descriptor_imports(mem@, pos as int) == Some(Seq::<ImportView>::empty()));
            assert(views(out@) + Seq::<ImportView>::empty() =~= views(out@));
            return Ok(out);
        }
        let lookup = read_u32(mem, p);
        let first = read_u32(mem, p + 16);
        let thunk = if lookup != 0 {
            lookup
        } else {
            first
        };
        let lib = match read_c_string(mem, name as u64) {
            Some(l) => l,
            None => {
                return Err(MapError::MalformedImage);
            },
        };
        let ghost before = views(out@);
        if !read_thunks(mem, &lib, thunk as u64, first as u64, &mut out) {
            return Err(MapError::MalformedImage);
        }
        proof {
            match thunk_imports(mem@, lib@, thunk as int, first as int) {
                Some(these) => {
                    match descriptor_imports(mem@, pos + IMPORT_DESCRIPTOR_SIZE) {
                        Some(rest) => {
                            assert(before + (these + rest) =~= views(out@) + rest);
                        },
                        None => {},
                    }
                },
                None => {},
            }
        }
        pos = pos + IMPORT_DESCRIPTOR_SIZE;
    }
}

/// What resolving one import gave: the symbol's address, or which step failed.
#[derive(Clone, Copy, PartialEq, Eq, Debug)]
pub enum Resolution {
    Address(u64),
    LibraryNotLoaded,
    SymbolNotFound,
}

/// Binding fails at import `i`: its resolution failed, or its slot lies
/// outside a region of `len` bytes.
pub open spec fn bind_fails_at(refs: Seq<ImportView>, res: Seq<Resolution>, len: int, i: int) -> bool {
    !(res[i] is Address) || refs[i].slot + 8 > len
}

/// `e` is the error reported when binding fails at `r` with resolution `res`.
pub open spec fn bind_error_is(e: MapError, r: ImportView, res: Resolution) -> bool {
    match res {
        Resolution::LibraryNotLoaded => match e {
            MapError::ImportLibraryLoadFailed(lib) => lib@ == r.library,
            _ => false,
        },
        Resolution::SymbolNotFound => match e {
            MapError::ImportSymbolResolutionFailed(lib, sym) => lib@ == r.library && sym@ == r.symbol,
            _ => false,
        },
        Resolution::Address(_) => e is MalformedImage,
    }
}

/// Binding fails at import `i` and at none before it, and `e` reports that failure.
pub open spec fn first_bind_error(refs: Seq<ImportView>, res: Seq<Resolution>, len: int, e: MapError) -> bool {
    exists|i: int|
        0 <= i < refs.len() && #[trigger] bind_fails_at(refs, res, len, i) && (forall|j: int|
            0 <= j < i ==> !#[trigger] bind_fails_at(refs, res, len, j)) && bind_error_is(e, refs[i], res[i])
}

/// `mem` after the address of each import is stored, in order, in its slot.
pub open spec fn bound(mem: Seq<u8>, refs: Seq<ImportView>, res: Seq<Resolution>) -> Seq<u8>
    decreases refs.len(),
{
    if refs.len() == 0 || res.len() < refs.len() {
        mem
    } else {
        let n = refs.len() - 1;
        let prev = bound(mem, refs.drop_last(), res);
        match res[n] {
            Resolution::Address(a) => write_at(prev, refs[n].slot, le_bytes64(a as int)),
            _ => prev,
        }
    }
}

proof fn lemma_bound_len(mem: Seq<u8>, refs: Seq<ImportView>, res: Seq<Resolution>)
    requires
        res.len() >= refs.len(),
        forall|i: int| 0 <= i < refs.len() ==> 0 <= #[trigger] refs[i].slot && refs[i].slot + 8 <= mem.len(),
    ensures
        bound(mem, refs, res).len() == mem.len(),
    decreases refs.len(),
{
    if refs.len() > 0 {
        let p = refs.drop_last();
        assert forall|i: int| 0 <= i < p.len() implies 0 <= #[trigger] p[i].slot && p[i].slot + 8 <= mem.len() by {
            assert(p[i] == refs[i]);
        }
        lemma_bound_len(mem, p, res);
    }
}

/// Byte `k` lies in the address-table slot of one of `refs`.
pub open spec fn in_some_slot(refs: Seq<ImportView>, k: int) -> bool {
    exists|i: int| 0 <= i < refs.len() && (#[trigger] refs[i]).slot <= k < refs[i].slot + 8
}

/// Binding changes only the bytes of the address-table slots.
pub proof fn lemma_bound_keeps_other_bytes(mem: Seq<u8>, refs: Seq<ImportView>, res: Seq<Resolution>, k: int)
    requires
        res.len() >= refs.len(),
        forall|i: int| 0 <= i < refs.len() ==> 0 <= #[trigger] refs[i].slot && refs[i].slot + 8 <= mem.len(),
        0 <= k < mem.len(),
        !in_some_slot(refs, k),
    ensures
        bound(mem, refs, res).len() == mem.len(),
        bound(mem, refs, res)[k] == mem[k],
    decreases refs.len(),
{
    if refs.len() > 0 {
        let p = refs.drop_last();
        assert forall|i: int| 0 <= i < p.len() implies 0 <= #[trigger] p[i].slot && p[i].slot + 8 <= mem.len() by {
            assert(p[i] == refs[i]);
        }
        assert(!in_some_slot(p, k)) by {
            if in_some_slot(p, k) {
                let i = choose|i: int| 0 <= i < p.len() && (#[trigger] p[i]).slot <= k < p[i].slot + 8;
                assert(p[i] == refs[i]);
            }
        }
        lemma_bound_keeps_other_bytes(mem, p, res, k);
        lemma_bound_len(mem, p, res);
        let n = refs.len() - 1;
        assert(!(refs[n].slot <= k < refs[n].slot + 8));
    }
}

fn duplicate_symbol(s: &ImportSymbol) -> (r: ImportSymbol)
    ensures
        r@ == s@,
{
    match s {
        ImportSymbol::Ordinal(n) => ImportSymbol::Ordinal(*n),
        ImportSymbol::Name(v) => ImportSymbol::Name(copy_bytes(v)),
    }
}

/// Stores each import's resolved address in its address-table slot, the
/// `i`-th resolution belonging to the `i`-th reference. The first import
/// whose resolution failed, or whose slot lies outside the region, fails
/// the whole call before anything is written: with
/// `ImportLibraryLoadFailed` or `ImportSymbolResolutionFailed` naming it,
/// or with `MalformedImage` for a slot outside the region.
pub fn bind_imports(mem: &mut Vec<u8>, refs: &Vec<ImportReference>, resolved: &Vec<Resolution>) -> (r: Result<(), MapError>)
    requires
        refs@.len() == resolved@.len(),
    ensures
        match r {
            Ok(_) => (forall|i: int|
                0 <= i < refs@.len() ==> !#[trigger] bind_fails_at(views(refs@), resolved@, old(mem)@.len() as int, i))
                && final(mem)@ == bound(old(mem)@, views(refs@), resolved@),
            Err(e) => first_bind_error(views(refs@), resolved@, old(mem)@.len() as int, e)
                && final(mem)@ == old(mem)@,
        },
{
    let n = refs.len();
    let len = mem.len() as u64;
    let ghost rv = views(refs@);
    let mut i: usize = 0;
    while i < n
        invariant
            0 <= i <= n,
            n == refs@.len(),
            n == resolved@.len(),
            len == mem.len(),
            mem@ == old(mem)@,
            rv == views(refs@),
            forall|j: int| 0 <= j < i ==> !#[trigger] bind_fails_at(rv, resolved@, len as int, j),
        decreases n - i,
    {
        let rf = &refs[i];
        match resolved[i] {
            Resolution::LibraryNotLoaded => {
                assert(bind_fails_at(rv, resolved@, len as int, i as int));
                return Err(MapError::ImportLibraryLoadFailed(copy_bytes(&rf.library_name)));
            },
            Resolution::SymbolNotFound => {
                assert(bind_fails_at(rv, resolved@, len as int, i as int));
                return Err(
                    MapError::ImportSymbolResolutionFailed(
                        copy_bytes(&rf.library_name),
                        duplicate_symbol(&rf.symbol),
                    ),
                );
            },
            Resolution::Address(_) => {
                if rf.iat_slot_offset > len || len - rf.iat_slot_offset < 8 {
                    assert(bind_fails_at(rv, resolved@, len as int, i as int));
                    return Err(MapError::MalformedImage);
                }
            },
        }
        i = i + 1;
    }
    let ghost start = mem@;
    let mut k: usize = 0;
    while k < n
        invariant
            0 <= k <= n,
            n == refs@.len(),
            n == resolved@.len(),
            len == start.len(),
            len == mem.len(),
            rv == views(refs@),
            forall|j: int| 0 <= j < n ==> !#[trigger] bind_fails_at(rv, resolved@, len as int, j),
            mem@ == bound(start, rv.subrange(0, k as int), resolved@),
        decreases n - k,
    {
        let ghost before = rv.subrange(0, k as int);
        let ghost after = rv.subrange(0, k + 1);
        assert(after.drop_last() =~= before);
        assert(after[k as int] == rv[k as int]);
        proof {
            assert forall|j: int| 0 <= j < before.len() implies 0 <= #[trigger] before[j].slot && before[j].slot + 8 <= start.len() by {
                assert(before[j] == rv[j]);
                assert(!bind_fails_at(rv, resolved@, len as int, j));
            }
            lemma_bound_len(start, before, resolved@);
            assert(!bind_fails_at(rv, resolved@, len as int, k as int));
        }
        match resolved[k] {
            Resolution::Address(a) => {
                write_u64(mem, refs[k].iat_slot_offset as usize, a);
            },
            _ => {},
        }
        k = k + 1;
    }
    assert(rv.subrange(0, n as int) =~= rv);
    Ok(())
}

/// A copy of `v`.
pub fn copy_bytes(v: &Vec<u8>) -> (r: Vec<u8>)
    ensures
        r@ == v@,
{
    let mut out: Vec<u8> = Vec::with_capacity(v.len());
    let mut i: usize = 0;
    while i < v.len()
        invariant
            0 <= i <= v.len(),
            out@ == v@.subrange(0, i as int),
        decreases v.len() - i,
    {
        out.push(v[i]);
        i = i + 1;
        assert(out@ =~= v@.subrange(0, i as int));
    }
    assert(out@ =~= v@);
    out
}

} // verus!
