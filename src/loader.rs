//! Kernel image loader: validates a PE32+ image, lays its sections out in a
//! zeroed memory image, applies base relocations for the address the image
//! is placed at, and computes the entry point.
use crate::pe::{
    lemma_write_le_frame, write_le, write_uint, lemma_read_le_frame, lemma_read_write_le,
    lemma_pow256_positive, lemma_read_le_bound, pow256, coff_offset,
    PE_POINTER,
    check_container, coff_characteristics, container_valid, machine, num_sections,
    optional_header_offset, optional_header_size, pe_offset, read_le, read_uint, section_header,
    section_raw_pointer, section_raw_size, section_virtual_address, section_virtual_size,
    SECTION_HEADER_SIZE,
};
use crate::status::{Status, LOAD_ERROR, UNSUPPORTED};
use vstd::prelude::*;
use vstd::slice::slice_subrange;

verus! {

/// Why an image cannot be loaded.
#[derive(Clone, Copy, Debug, PartialEq, Eq, Structural)]
pub enum ImageError {
    /// No `MZ` magic, no `PE\0\0` signature, or a section table past the end.
    BadContainer,
    /// The COFF machine type is not the one of the running platform.
    MachineMismatch,
    /// The optional header is not a PE32+ header, or declares no image or
    /// an entry point outside it.
    BadOptionalHeader,
    /// A section lies outside the image or its raw data outside the file.
    SectionOutOfBounds,
    /// The relocation table lies outside the image, is malformed, or has a
    /// fixup outside the image.
    BadRelocations,
    /// The image has no relocations and is not placed at its preferred base.
    NotRelocatable,
}

impl ImageError {
    /// The status reported to firmware.
    pub fn status(&self) -> (r: Status)
        ensures
            r.code == (if *self == ImageError::MachineMismatch {
                UNSUPPORTED
            } else {
                LOAD_ERROR
            }),
    {
        match self {
            ImageError::MachineMismatch => Status::new(UNSUPPORTED),
            _ => Status::new(LOAD_ERROR),
        }
    }
}

/// PE32+ optional header magic.
pub const PE32_PLUS_MAGIC: u64 = 0x20b;

/// COFF characteristic: the image carries no relocations and must be loaded
/// at its preferred base.
pub const RELOCS_STRIPPED: u64 = 0x0001;

/// What the loader reads from the headers.
#[derive(Clone, Copy, Debug, PartialEq, Eq, Structural)]
pub struct ImageLayout {
    pub section_table: u64,
    pub num_sections: u64,
    pub entry_rva: u64,
    pub image_base: u64,
    pub section_alignment: u64,
    pub size_of_image: u64,
    pub relocatable: bool,
    pub reloc_rva: u64,
    pub reloc_size: u64,
}

/// Bytes of section `i` copied from the file: its raw size, at most its
/// virtual size.
pub open spec fn copy_len(d: Seq<u8>, i: int) -> int {
    if section_raw_size(d, i) < section_virtual_size(d, i) {
        section_raw_size(d, i)
    } else {
        section_virtual_size(d, i)
    }
}

/// Every section lies within an image of `size` bytes and its raw data
/// within the file.
pub open spec fn sections_fit(d: Seq<u8>, size: int) -> bool {
    forall|i: int|
        0 <= i < num_sections(d) ==> #[trigger] section_virtual_address(d, i)
            + section_virtual_size(d, i) <= size && section_raw_pointer(d, i) + copy_len(d, i)
            <= d.len()
}

pub open spec fn has_reloc_directory(d: Seq<u8>) -> bool {
    read_le(d, optional_header_offset(d) + 108, 4) > 5 && optional_header_size(d) >= 160
}

/// The headers of `d` as the loader reads them, or why they do not describe
/// a loadable image for `machine_type`.
pub open spec fn layout_of(d: Seq<u8>, machine_type: u16) -> Result<ImageLayout, ImageError> {
    let o = optional_header_offset(d);
    let size = read_le(d, o + 56, 4) as int;
    let entry = read_le(d, o + 16, 4) as int;
    let rrva = if has_reloc_directory(d) {
        read_le(d, o + 152, 4) as int
    } else {
        0
    };
    let rsize = if has_reloc_directory(d) {
        read_le(d, o + 156, 4) as int
    } else {
        0
    };
    if !container_valid(d) {
        Err(ImageError::BadContainer)
    } else if machine(d) != machine_type {
        Err(ImageError::MachineMismatch)
    } else if optional_header_size(d) < 112 || read_le(d, o, 2) != PE32_PLUS_MAGIC {
        Err(ImageError::BadOptionalHeader)
    } else if size == 0 || entry >= size {
        Err(ImageError::BadOptionalHeader)
    } else if !sections_fit(d, size) {
        Err(ImageError::SectionOutOfBounds)
    } else if rsize > 0 && rrva + rsize > size {
        Err(ImageError::BadRelocations)
    } else {
        Ok(
            ImageLayout {
                section_table: section_header(d, 0) as u64,
                num_sections: num_sections(d) as u64,
                entry_rva: entry as u64,
                image_base: read_le(d, o + 24, 8) as u64,
                section_alignment: read_le(d, o + 32, 4) as u64,
                size_of_image: size as u64,
                relocatable: (coff_characteristics(d) as u64) & RELOCS_STRIPPED == 0,
                reloc_rva: rrva as u64,
                reloc_size: rsize as u64,
            },
        )
    }
}

/// Whether section `i` lies within an image of `size` bytes and its raw
/// data within the file.
fn section_fits(d: &[u8], table: usize, i: usize, size: u64) -> (r: bool)
    requires
        container_valid(d@),
        table as int == section_header(d@, 0),
        i < num_sections(d@),
    ensures
        r == (section_virtual_address(d@, i as int) + section_virtual_size(d@, i as int) <= size
            && section_raw_pointer(d@, i as int) + copy_len(d@, i as int) <= d@.len()),
{
    let len = d.len();
    assert(section_header(d@, i as int) + 40 <= section_header(d@, num_sections(d@)));
    let h = table + SECTION_HEADER_SIZE * i;
    let vsize = read_uint(d, h + 8, 4);
    let va = read_uint(d, h + 12, 4);
    let raw = read_uint(d, h + 16, 4);
    let ptr = read_uint(d, h + 20, 4);
    let cl = if raw < vsize {
        raw
    } else {
        vsize
    };
    va + vsize <= size && ptr + cl <= len as u64
}

/// Parses and validates the headers of `d` for the platform `machine_type`.
pub fn parse_image(d: &[u8], machine_type: u16) -> (r: Result<ImageLayout, ImageError>)
    ensures
        r == layout_of(d@, machine_type),
{
    let len = d.len();
    let pe = match check_container(d) {
        Some(p) => p,
        None => return Err(ImageError::BadContainer),
    };
    if read_uint(d, pe + 4, 2) != machine_type as u64 {
        return Err(ImageError::MachineMismatch);
    }
    let n = read_uint(d, pe + 6, 2) as usize;
    let osz = read_uint(d, pe + 20, 2) as usize;
    let characteristics = read_uint(d, pe + 22, 2);
    let o = pe + 24;
    let table = o + osz;
    assert(table + 40 * n <= len);
    if osz < 112 || read_uint(d, o, 2) != PE32_PLUS_MAGIC {
        return Err(ImageError::BadOptionalHeader);
    }
    let size = read_uint(d, o + 56, 4);
    let entry = read_uint(d, o + 16, 4);
    if size == 0 || entry >= size {
        return Err(ImageError::BadOptionalHeader);
    }
    let mut i: usize = 0;
    while i < n
        invariant
            len == d@.len(),
            container_valid(d@),
            pe as int == pe_offset(d@),
            n as int == num_sections(d@),
            table as int == section_header(d@, 0),
            table + 40 * n <= len,
            size as int == read_le(d@, optional_header_offset(d@) + 56, 4),
            entry as int == read_le(d@, optional_header_offset(d@) + 16, 4),
            0 < size,
            entry < size,
            machine(d@) == machine_type,
            optional_header_size(d@) >= 112,
            read_le(d@, optional_header_offset(d@), 2) == PE32_PLUS_MAGIC,
            i <= n,
            forall|k: int|
                0 <= k < i ==> #[trigger] section_virtual_address(d@, k) + section_virtual_size(
                    d@,
                    k,
                ) <= size && section_raw_pointer(d@, k) + copy_len(d@, k) <= d@.len(),
        decreases n - i,
    {
        if !section_fits(d, table, i, size) {
            let ghost gi = i as int;
            assert(0 <= gi < num_sections(d@));
            assert(!sections_fit(d@, size as int));
            return Err(ImageError::SectionOutOfBounds);
        }
        i = i + 1;
    }
    let has_dir = read_uint(d, o + 108, 4) > 5 && osz >= 160;
    let reloc_rva = if has_dir {
        read_uint(d, o + 152, 4)
    } else {
        0
    };
    let reloc_size = if has_dir {
        read_uint(d, o + 156, 4)
    } else {
        0
    };
    if reloc_size > 0 && reloc_rva + reloc_size > size {
        return Err(ImageError::BadRelocations);
    }
    Ok(
        ImageLayout {
            section_table: table as u64,
            num_sections: n as u64,
            entry_rva: entry,
            image_base: read_uint(d, o + 24, 8),
            section_alignment: read_uint(d, o + 32, 4),
            size_of_image: size,
            relocatable: characteristics & RELOCS_STRIPPED == 0,
            reloc_rva,
            reloc_size,
        },
    )
}

/// One relocation: the field of `width` bytes at image offset `offset` gets
/// the load delta added.
#[derive(Clone, Copy, Debug, PartialEq, Eq, Structural)]
pub struct Fixup {
    pub offset: u64,
    pub width: usize,
}

/// Relocation kinds: padding, low 16 bits, 32 bits, 64 bits.
pub const REL_BASED_ABSOLUTE: u64 = 0;

pub const REL_BASED_LOW: u64 = 2;

pub const REL_BASED_HIGHLOW: u64 = 3;

pub const REL_BASED_DIR64: u64 = 10;

/// Width in bytes of the field a relocation kind patches; zero for a kind
/// the loader does not know.
pub open spec fn kind_width(kind: int) -> int {
    if kind == REL_BASED_LOW {
        2
    } else if kind == REL_BASED_HIGHLOW {
        4
    } else if kind == REL_BASED_DIR64 {
        8
    } else {
        0
    }
}

pub open spec fn block_page(t: Seq<u8>, pos: int) -> int {
    read_le(t, pos, 4) as int
}

pub open spec fn block_size(t: Seq<u8>, pos: int) -> int {
    read_le(t, pos + 4, 4) as int
}

/// The fixups of the first `j` entries of the relocation block at `pos`.
pub open spec fn block_fixups(t: Seq<u8>, pos: int, j: int) -> Option<Seq<Fixup>>
    decreases j,
{
    if j <= 0 {
        Some(Seq::empty())
    } else {
        match block_fixups(t, pos, j - 1) {
            None => None,
            Some(acc) => {
                let e = read_le(t, pos + 8 + 2 * (j - 1), 2) as int;
                let kind = e / 4096;
                if kind == REL_BASED_ABSOLUTE {
                    Some(acc)
                } else if kind_width(kind) > 0 {
                    Some(
                        acc.push(
                            Fixup {
                                offset: (block_page(t, pos) + e % 4096) as u64,
                                width: kind_width(kind) as usize,
                            },
                        ),
                    )
                } else {
                    None
                }
            },
        }
    }
}

/// The fixups of the relocation table `t` from the block at `pos` on; none
/// where a block header is cut off, a block is shorter than its header or
/// runs past the table, or an entry has an unknown kind.
pub open spec fn table_fixups(t: Seq<u8>, pos: int) -> Option<Seq<Fixup>>
    decreases t.len() - pos,
{
    if pos < 0 || pos >= t.len() {
        Some(Seq::empty())
    } else if pos + 8 > t.len() || block_size(t, pos) < 8 || pos + block_size(t, pos) > t.len() {
        None
    } else {
        match block_fixups(t, pos, (block_size(t, pos) - 8) / 2) {
            None => None,
            Some(f) => match table_fixups(t, pos + block_size(t, pos)) {
                None => None,
                Some(r) => Some(f + r),
            },
        }
    }
}

proof fn lemma_block_none_stays(t: Seq<u8>, pos: int, j: int, k: int)
    requires
        0 < j <= k,
        block_fixups(t, pos, j) is None,
    ensures
        block_fixups(t, pos, k) is None,
    decreases k - j,
{
    if j < k {
        lemma_block_none_stays(t, pos, j, k - 1);
    }
}

/// The fixups of one block.
fn parse_block(t: &[u8], pos: usize, count: usize) -> (r: Option<Vec<Fixup>>)
    requires
        pos + 8 + 2 * count <= t@.len(),
    ensures
        r matches Some(v) ==> block_fixups(t@, pos as int, count as int) == Some(v@),
        r is None ==> block_fixups(t@, pos as int, count as int) is None,
{
    let len = t.len();
    let page = read_uint(t, pos, 4);
    let mut out: Vec<Fixup> = Vec::new();
    let mut j: usize = 0;
    while j < count
        invariant
            len == t@.len(),
            pos + 8 + 2 * count <= len,
            page as int == block_page(t@, pos as int),
            page < 0x100000000,
            j <= count,
            block_fixups(t@, pos as int, j as int) == Some(out@),
        decreases count - j,
    {
        let e = read_uint(t, pos + 8 + 2 * j, 2);
        let kind = e / 4096;
        let width: usize = if kind == REL_BASED_LOW {
            2
        } else if kind == REL_BASED_HIGHLOW {
            4
        } else if kind == REL_BASED_DIR64 {
            8
        } else {
            0
        };
        if kind != REL_BASED_ABSOLUTE {
            if width == 0 {
                proof {
                    lemma_block_none_stays(t@, pos as int, j + 1, count as int);
                }
                return None;
            }
            out.push(Fixup { offset: page + e % 4096, width });
        }
        j = j + 1;
    }
    Some(out)
}

/// Parses a relocation table into its fixups.
pub fn parse_relocations(t: &[u8]) -> (r: Option<Vec<Fixup>>)
    ensures
        r matches Some(v) ==> table_fixups(t@, 0) == Some(v@),
        r is None ==> table_fixups(t@, 0) is None,
{
    let len = t.len();
    let mut out: Vec<Fixup> = Vec::new();
    let mut pos: usize = 0;
    while pos < len
        invariant
            len == t@.len(),
            pos <= len,
            table_fixups(t@, 0) == match table_fixups(t@, pos as int) {
                None => None,
                Some(r) => Some(out@ + r),
            },
        decreases len - pos,
    {
        if len - pos < 8 {
            return None;
        }
        let size = read_uint(t, pos + 4, 4);
        if size < 8 || size > (len - pos) as u64 {
            return None;
        }
        let size = size as usize;
        let mut blk = match parse_block(t, pos, (size - 8) / 2) {
            Some(b) => b,
            None => return None,
        };
        let ghost before = out@;
        let ghost f = blk@;
        out.append(&mut blk);
        proof {
            match table_fixups(t@, (pos + size) as int) {
                None => {},
                Some(r) => {
                    assert(before + (f + r) =~= (before + f) + r);
                },
            }
        }
        pos = pos + size;
    }
    assert(out@ + Seq::<Fixup>::empty() =~= out@);
    Some(out)
}

/// The new content of a fixed-up field: old value plus delta, modulo `2^64`
/// (and then modulo the field's width when written back).
pub open spec fn fixed_value(mem: Seq<u8>, f: Fixup, delta: u64) -> nat {
    ((read_le(mem, f.offset as int, f.width as nat) + delta) % 0x1_0000_0000_0000_0000) as nat
}

pub open spec fn apply_fixup(mem: Seq<u8>, f: Fixup, delta: u64) -> Seq<u8> {
    write_le(mem, f.offset as int, fixed_value(mem, f, delta), f.width as nat)
}

/// `mem` with the fixups applied in order.
pub open spec fn apply_fixups(mem: Seq<u8>, fs: Seq<Fixup>, delta: u64) -> Seq<u8>
    decreases fs.len(),
{
    if fs.len() == 0 {
        mem
    } else {
        apply_fixup(apply_fixups(mem, fs.drop_last(), delta), fs.last(), delta)
    }
}

/// Every fixup has a known width and lies within `len` bytes.
pub open spec fn fixups_in_bounds(fs: Seq<Fixup>, len: int) -> bool {
    forall|k: int|
        0 <= k < fs.len() ==> (#[trigger] fs[k]).offset + fs[k].width <= len && fs[k].width <= 8
}

pub proof fn lemma_apply_fixups_len(mem: Seq<u8>, fs: Seq<Fixup>, delta: u64)
    requires
        fixups_in_bounds(fs, mem.len() as int),
    ensures
        apply_fixups(mem, fs, delta).len() == mem.len(),
    decreases fs.len(),
{
    if fs.len() > 0 {
        let prev = fs.drop_last();
        assert(fixups_in_bounds(prev, mem.len() as int)) by {
            assert forall|k: int| 0 <= k < prev.len() implies (#[trigger] prev[k]).offset
                + prev[k].width <= mem.len() && prev[k].width <= 8 by {
                assert(prev[k] == fs[k]);
            }
        }
        lemma_apply_fixups_len(mem, prev, delta);
        let f = fs.last();
        assert(f == fs[fs.len() - 1]);
        lemma_write_le_frame(
            apply_fixups(mem, prev, delta),
            f.offset as int,
            fixed_value(apply_fixups(mem, prev, delta), f, delta),
            f.width as nat,
        );
    }
}

/// Checks that every fixup lies within `len` bytes.
fn check_fixups(fs: &Vec<Fixup>, len: usize) -> (r: bool)
    ensures
        r == fixups_in_bounds(fs@, len as int),
{
    let mut i: usize = 0;
    while i < fs.len()
        invariant
            i <= fs@.len(),
            fixups_in_bounds(fs@.take(i as int), len as int),
        decreases fs@.len() - i,
    {
        let f = fs[i];
        if f.offset > len as u64 || f.width as u64 > len as u64 - f.offset || f.width > 8 {
            assert(!fixups_in_bounds(fs@, len as int)) by {
                assert(fs@[i as int] == f);
            }
            return false;
        }
        assert(fixups_in_bounds(fs@.take(i + 1), len as int)) by {
            assert forall|k: int| 0 <= k < i + 1 implies (#[trigger] fs@.take(i + 1)[k]).offset
                + fs@.take(i + 1)[k].width <= len && fs@.take(i + 1)[k].width <= 8 by {
                if k < i {
                    assert(fs@.take(i + 1)[k] == fs@.take(i as int)[k]);
                }
            }
        }
        i = i + 1;
    }
    assert(fs@.take(i as int) =~= fs@);
    true
}

/// Applies the fixups to `mem` for a load delta of `delta`.
pub fn apply_relocations(mem: &mut Vec<u8>, fs: &Vec<Fixup>, delta: u64)
    requires
        fixups_in_bounds(fs@, old(mem)@.len() as int),
    ensures
        final(mem)@ == apply_fixups(old(mem)@, fs@, delta),
{
    let ghost orig = mem@;
    let len = mem.len();
    let mut i: usize = 0;
    assert(fs@.take(0) =~= Seq::<Fixup>::empty());
    while i < fs.len()
        invariant
            len == orig.len(),
            i <= fs@.len(),
            fixups_in_bounds(fs@, orig.len() as int),
            mem@ == apply_fixups(orig, fs@.take(i as int), delta),
            mem@.len() == orig.len(),
        decreases fs@.len() - i,
    {
        let f = fs[i];
        assert(fs@[i as int] == f);
        let v = read_uint(mem.as_slice(), f.offset as usize, f.width);
        let nv = v.wrapping_add(delta);
        assert(nv as int == (v + delta) % 0x1_0000_0000_0000_0000);
        write_uint(mem, f.offset as usize, nv, f.width);
        proof {
            let next = fs@.take(i + 1);
            assert(next.drop_last() =~= fs@.take(i as int));
            assert(next.last() == f);
            lemma_write_le_frame(
                apply_fixups(orig, fs@.take(i as int), delta),
                f.offset as int,
                nv as nat,
                f.width as nat,
            );
        }
        i = i + 1;
    }
    assert(fs@.take(i as int) =~= fs@);
}

/// `mem` with the copied bytes of section `i` of `d` written at its virtual
/// address.
pub open spec fn copy_section(mem: Seq<u8>, d: Seq<u8>, i: int) -> Seq<u8> {
    let va = section_virtual_address(d, i);
    let ptr = section_raw_pointer(d, i);
    Seq::new(
        mem.len(),
        |x: int|
            if va <= x < va + copy_len(d, i) {
                d[ptr + x - va]
            } else {
                mem[x]
            },
    )
}

/// A zeroed image of `size` bytes with the first `n` sections copied in, in
/// table order.
pub open spec fn sections_copied(d: Seq<u8>, size: nat, n: int) -> Seq<u8>
    decreases n,
{
    if n <= 0 {
        Seq::new(size, |x: int| 0u8)
    } else {
        copy_section(sections_copied(d, size, n - 1), d, n - 1)
    }
}

pub proof fn lemma_sections_copied_len(d: Seq<u8>, size: nat, n: int)
    ensures
        sections_copied(d, size, n).len() == size,
    decreases n,
{
    if n > 0 {
        lemma_sections_copied_len(d, size, n - 1);
    }
}

/// The image before relocation.
pub open spec fn image_memory(d: Seq<u8>, l: ImageLayout) -> Seq<u8> {
    sections_copied(d, l.size_of_image as nat, l.num_sections as int)
}

/// Copies section `i` into `mem`.
fn copy_one(mem: &mut Vec<u8>, d: &[u8], table: usize, i: usize)
    requires
        container_valid(d@),
        table as int == section_header(d@, 0),
        i < num_sections(d@),
        section_virtual_address(d@, i as int) + section_virtual_size(d@, i as int) <= old(
            mem,
        )@.len(),
        section_raw_pointer(d@, i as int) + copy_len(d@, i as int) <= d@.len(),
    ensures
        final(mem)@ == copy_section(old(mem)@, d@, i as int),
{
    let ghost orig = mem@;
    let len = mem.len();
    let dlen = d.len();
    assert(section_header(d@, i as int) + 40 <= section_header(d@, num_sections(d@)));
    let h = table + SECTION_HEADER_SIZE * i;
    let vsize = read_uint(d, h + 8, 4) as usize;
    let va = read_uint(d, h + 12, 4) as usize;
    let raw = read_uint(d, h + 16, 4) as usize;
    let ptr = read_uint(d, h + 20, 4) as usize;
    let cl = if raw < vsize {
        raw
    } else {
        vsize
    };
    let mut k: usize = 0;
    while k < cl
        invariant
            len == orig.len() == mem@.len(),
            dlen == d@.len(),
            va as int == section_virtual_address(d@, i as int),
            ptr as int == section_raw_pointer(d@, i as int),
            cl as int == copy_len(d@, i as int),
            va + cl <= len,
            ptr + cl <= dlen,
            k <= cl,
            forall|x: int|
                0 <= x < len ==> #[trigger] mem@[x] == (if va <= x < va + k {
                    d@[ptr + x - va]
                } else {
                    orig[x]
                }),
        decreases cl - k,
    {
        mem.set(va + k, d[ptr + k]);
        k = k + 1;
    }
    assert(mem@ =~= copy_section(orig, d@, i as int));
}

/// A zeroed image of the declared size with every section copied in.
pub fn copy_sections(d: &[u8], l: &ImageLayout) -> (r: Vec<u8>)
    requires
        container_valid(d@),
        l.section_table as int == section_header(d@, 0),
        l.num_sections as int == num_sections(d@),
        sections_fit(d@, l.size_of_image as int),
        l.size_of_image < 0x1_0000_0000,
    ensures
        r@ == image_memory(d@, *l),
        r@.len() == l.size_of_image,
{
    proof {
        lemma_sections_copied_len(d@, l.size_of_image as nat, l.num_sections as int);
    }
    let dlen = d.len();
    let table = l.section_table as usize;
    let n = l.num_sections as usize;
    let size = l.size_of_image as usize;
    let mut mem: Vec<u8> = Vec::new();
    let mut x: usize = 0;
    while x < size
        invariant
            x <= size,
            size as int == l.size_of_image,
            mem@ == Seq::new(x as nat, |k: int| 0u8),
        decreases size - x,
    {
        mem.push(0);
        x = x + 1;
        assert(mem@ =~= Seq::new(x as nat, |k: int| 0u8));
    }
    let mut i: usize = 0;
    while i < n
        invariant
            n == l.num_sections,
            table == l.section_table,
            container_valid(d@),
            l.section_table as int == section_header(d@, 0),
            l.num_sections as int == num_sections(d@),
            sections_fit(d@, l.size_of_image as int),
            size as int == l.size_of_image,
            i <= n,
            mem@ == sections_copied(d@, size as nat, i as int),
            mem@.len() == size,
        decreases n - i,
    {
        assert(section_virtual_address(d@, i as int) + section_virtual_size(d@, i as int)
            <= size);
        copy_one(&mut mem, d, table, i);
        i = i + 1;
    }
    mem
}

/// Page size of the firmware's page allocator.
pub const PAGE_SIZE: u64 = 4096;

/// A parsed, laid out and relocated image, ready to be placed at `base`.
pub struct LoadedImage {
    /// Address the image is placed at.
    pub base: u64,
    /// Address of the entry point.
    pub entry: u64,
    /// Size of the image in bytes.
    pub size: u64,
    /// Pages reserved for the image.
    pub pages: u64,
    /// Alignment the sections ask for.
    pub alignment: u64,
    /// The bytes to place at `base`.
    pub memory: Vec<u8>,
}

impl LoadedImage {
    /// The entry point lies within the image, and the memory fills it.
    pub open spec fn wf(&self) -> bool {
        &&& self.base <= self.entry < self.base + self.size
        &&& self.memory@.len() == self.size
        &&& self.size <= self.pages * PAGE_SIZE
    }
}

/// The load delta: placement address minus preferred base, modulo `2^64`.
pub open spec fn load_delta(l: ImageLayout, base: u64) -> u64 {
    ((base - l.image_base) % 0x1_0000_0000_0000_0000) as u64
}

/// What a successful parse guarantees of the layout.
pub proof fn lemma_layout_bounds(d: Seq<u8>, machine_type: u16)
    requires
        layout_of(d, machine_type) is Ok,
    ensures
        ({
            let l = layout_of(d, machine_type).unwrap();
            &&& container_valid(d)
            &&& l.section_table as int == section_header(d, 0)
            &&& l.section_table <= d.len()
            &&& l.num_sections as int == num_sections(d)
            &&& sections_fit(d, l.size_of_image as int)
            &&& 0 < l.size_of_image < 0x1_0000_0000
            &&& l.entry_rva < l.size_of_image
            &&& l.section_alignment < 0x1_0000_0000
            &&& l.reloc_size > 0 ==> l.reloc_rva + l.reloc_size <= l.size_of_image
        }),
{
    let o = optional_header_offset(d);
    lemma_read_le_bound(d, o + 56, 4);
    lemma_read_le_bound(d, o + 32, 4);
    lemma_read_le_bound(d, coff_offset(d) + 2, 2);
    lemma_read_le_bound(d, coff_offset(d) + 16, 2);
    lemma_read_le_bound(d, PE_POINTER as int, 4);
    reveal_with_fuel(pow256, 5);
}

/// The fixups of a laid-out image: none to apply without a relocation
/// table, else those of the table as it stands in the image.
pub open spec fn image_fixups(d: Seq<u8>, l: ImageLayout) -> Option<Seq<Fixup>> {
    if l.reloc_size == 0 {
        Some(Seq::empty())
    } else {
        table_fixups(
            image_memory(d, l).subrange(l.reloc_rva as int, l.reloc_rva + l.reloc_size),
            0,
        )
    }
}

/// The bytes of `d` loaded at `base` for the platform `machine_type`, or
/// why that fails.
pub open spec fn loaded_memory(d: Seq<u8>, machine_type: u16, base: u64) -> Result<
    Seq<u8>,
    ImageError,
> {
    match layout_of(d, machine_type) {
        Err(e) => Err(e),
        Ok(l) => if !l.relocatable && base != l.image_base {
            Err(ImageError::NotRelocatable)
        } else {
            match image_fixups(d, l) {
                None => Err(ImageError::BadRelocations),
                Some(fs) => if !fixups_in_bounds(fs, l.size_of_image as int) {
                    Err(ImageError::BadRelocations)
                } else {
                    Ok(apply_fixups(image_memory(d, l), fs, load_delta(l, base)))
                },
            }
        },
    }
}

impl LoadedImage {
    /// Loads the image `d` to be placed at `base`: validates the headers,
    /// copies the sections into a zeroed image and applies the relocations
    /// for `base`. Fails before anything is laid out when the headers do not
    /// describe a loadable image for `machine_type`.
    pub fn load(d: &[u8], machine_type: u16, base: u64) -> (r: Result<LoadedImage, ImageError>)
        requires
            base <= u64::MAX - 0xffff_ffff,
        ensures
            r matches Ok(img) ==> {
                &&& img.wf()
                &&& layout_of(d@, machine_type) matches Ok(l) && img.base == base && img.entry
                    == base + l.entry_rva && img.size == l.size_of_image && img.alignment
                    == l.section_alignment
                &&& loaded_memory(d@, machine_type, base) == Ok::<Seq<u8>, ImageError>(
                    img.memory@,
                )
            },
            r matches Err(e) ==> loaded_memory(d@, machine_type, base) == Err::<
                Seq<u8>,
                ImageError,
            >(e),
    {
        let len = d.len();
        let l = parse_image(d, machine_type)?;
        proof {
            lemma_layout_bounds(d@, machine_type);
        }
        if !l.relocatable && base != l.image_base {
            return Err(ImageError::NotRelocatable);
        }
        let mut memory = copy_sections(d, &l);
        let fixups = if l.reloc_size == 0 {
            Vec::new()
        } else {
            let start = l.reloc_rva as usize;
            let end = start + l.reloc_size as usize;
            match parse_relocations(slice_subrange(memory.as_slice(), start, end)) {
                Some(f) => f,
                None => return Err(ImageError::BadRelocations),
            }
        };
        assert(image_fixups(d@, l) == Some(fixups@));
        if !check_fixups(&fixups, memory.len()) {
            return Err(ImageError::BadRelocations);
        }
        let delta = base.wrapping_sub(l.image_base);
        assert(delta == load_delta(l, base));
        apply_relocations(&mut memory, &fixups, delta);
        proof {
            lemma_apply_fixups_len(image_memory(d@, l), fixups@, delta);
        }
        let pages = (l.size_of_image + (PAGE_SIZE - 1)) / PAGE_SIZE;
        proof {
            let x = l.size_of_image + (PAGE_SIZE - 1);
            vstd::arithmetic::div_mod::lemma_fundamental_div_mod(x as int, PAGE_SIZE as int);
            vstd::arithmetic::div_mod::lemma_mod_bound(x as int, PAGE_SIZE as int);
            assert(pages * PAGE_SIZE >= l.size_of_image);
        }
        Ok(
            LoadedImage {
                base,
                entry: base + l.entry_rva,
                size: l.size_of_image,
                pages,
                alignment: l.section_alignment,
                memory,
            },
        )
    }
}

/// No two fixups patch a common byte.
pub open spec fn fixups_disjoint(fs: Seq<Fixup>) -> bool {
    forall|i: int, j: int|
        0 <= i < fs.len() && 0 <= j < fs.len() && i != j ==> #[trigger] fs[i].offset + fs[i].width
            <= #[trigger] fs[j].offset || fs[j].offset + fs[j].width <= fs[i].offset
}

proof fn lemma_prefix_props(fs: Seq<Fixup>, len: int)
    requires
        fs.len() > 0,
        fixups_in_bounds(fs, len),
    ensures
        fixups_in_bounds(fs.drop_last(), len),
        fixups_disjoint(fs) ==> fixups_disjoint(fs.drop_last()),
{
    let p = fs.drop_last();
    assert forall|k: int| 0 <= k < p.len() implies (#[trigger] p[k]).offset + p[k].width <= len
        && p[k].width <= 8 by {
        assert(p[k] == fs[k]);
    }
    if fixups_disjoint(fs) {
        assert forall|i: int, j: int|
            0 <= i < p.len() && 0 <= j < p.len() && i != j implies #[trigger] p[i].offset
            + p[i].width <= #[trigger] p[j].offset || p[j].offset + p[j].width <= p[i].offset by {
            assert(p[i] == fs[i] && p[j] == fs[j]);
        }
    }
}

/// A field that no fixup touches keeps its value.
proof fn lemma_apply_fixups_untouched(mem: Seq<u8>, fs: Seq<Fixup>, delta: u64, off: int, w: nat)
    requires
        fixups_in_bounds(fs, mem.len() as int),
        0 <= off,
        off + w <= mem.len(),
        forall|k: int|
            0 <= k < fs.len() ==> (#[trigger] fs[k]).offset + fs[k].width <= off || off + w
                <= fs[k].offset,
    ensures
        read_le(apply_fixups(mem, fs, delta), off, w) == read_le(mem, off, w),
    decreases fs.len(),
{
    if fs.len() > 0 {
        let p = fs.drop_last();
        let f = fs.last();
        assert(f == fs[fs.len() - 1]);
        lemma_prefix_props(fs, mem.len() as int);
        assert forall|k: int| 0 <= k < p.len() implies (#[trigger] p[k]).offset + p[k].width <= off
            || off + w <= p[k].offset by {
            assert(p[k] == fs[k]);
        }
        lemma_apply_fixups_untouched(mem, p, delta, off, w);
        let prev = apply_fixups(mem, p, delta);
        lemma_apply_fixups_len(mem, p, delta);
        lemma_write_le_frame(prev, f.offset as int, fixed_value(prev, f, delta), f.width as nat);
        lemma_read_le_frame(apply_fixup(prev, f, delta), prev, off, w);
    }
}

/// After all fixups, a fixed-up field holds its value before relocation plus the
/// delta, modulo `2^64` and the field's width.
proof fn lemma_apply_fixups_field(mem: Seq<u8>, fs: Seq<Fixup>, delta: u64, k: int)
    requires
        fixups_in_bounds(fs, mem.len() as int),
        fixups_disjoint(fs),
        0 <= k < fs.len(),
    ensures
        read_le(apply_fixups(mem, fs, delta), fs[k].offset as int, fs[k].width as nat) == ((
        read_le(mem, fs[k].offset as int, fs[k].width as nat) + delta) % 0x1_0000_0000_0000_0000)
            % (pow256(fs[k].width as nat) as int),
    decreases fs.len(),
{
    let p = fs.drop_last();
    let f = fs.last();
    let last = fs.len() - 1;
    assert(f == fs[last]);
    lemma_prefix_props(fs, mem.len() as int);
    let prev = apply_fixups(mem, p, delta);
    lemma_apply_fixups_len(mem, p, delta);
    let g = fs[k];
    if k == last {
        assert forall|j: int| 0 <= j < p.len() implies (#[trigger] p[j]).offset + p[j].width
            <= g.offset || g.offset + g.width <= p[j].offset by {
            assert(p[j] == fs[j]);
        }
        lemma_apply_fixups_untouched(mem, p, delta, g.offset as int, g.width as nat);
        lemma_read_write_le(prev, f.offset as int, fixed_value(prev, f, delta), f.width as nat);
    } else {
        assert(p[k] == g);
        lemma_apply_fixups_field(mem, p, delta, k);
        lemma_write_le_frame(prev, f.offset as int, fixed_value(prev, f, delta), f.width as nat);
        lemma_read_le_frame(apply_fixup(prev, f, delta), prev, g.offset as int, g.width as nat);
    }
}

proof fn lemma_pow256_add(a: nat, b: nat)
    ensures
        pow256(a + b) == pow256(a) * pow256(b),
    decreases a,
{
    if a > 0 {
        lemma_pow256_add((a - 1) as nat, b);
        assert(pow256(a + b) == 256 * pow256(((a - 1) as nat + b) as nat));
        assert(pow256(a) == 256 * pow256((a - 1) as nat));
        vstd::arithmetic::mul::lemma_mul_is_associative(
            256,
            pow256((a - 1) as nat) as int,
            pow256(b) as int,
        );
    } else {
        assert(pow256(a) == 1);
        assert(a + b == b);
    }
}

/// Moving a field's value by `delta` modulo `2^64` and then reading it at
/// width `w` is the same as adding `x` modulo `256^w`, for any `x` equal to
/// `delta` modulo `2^64`.
proof fn lemma_shift_mod(r: int, delta: u64, x: int, w: nat)
    requires
        w <= 8,
        0 <= r,
        (x - delta) % 0x1_0000_0000_0000_0000 == 0,
    ensures
        ((r + delta) % 0x1_0000_0000_0000_0000) % (pow256(w) as int) == (r + x) % (pow256(w) as int),
{
    let m = pow256(w) as int;
    let c = pow256((8 - w) as nat) as int;
    lemma_pow256_add(w, (8 - w) as nat);
    assert(pow256(8) == 0x1_0000_0000_0000_0000) by {
        reveal_with_fuel(pow256, 9);
    }
    lemma_pow256_positive(w);
    lemma_pow256_positive((8 - w) as nat);
    vstd::arithmetic::div_mod::lemma_mod_mod(r + delta, m, c);
    // x = delta + 2^64 * t, and 2^64 = m * c.
    vstd::arithmetic::div_mod::lemma_fundamental_div_mod(x - delta, m * c);
    let t = (x - delta) / (m * c);
    assert(r + x == m * (c * t) + (r + delta)) by {
        vstd::arithmetic::mul::lemma_mul_is_associative(m, c, t);
    }
    vstd::arithmetic::div_mod::lemma_mod_multiples_vanish(c * t, r + delta, m);
}

/// Loading one image at two addresses `b1` and `b2`, where no two fixups
/// overlap, gives two memory images in which every relocated field differs
/// by exactly `b2 - b1`, modulo the field's width.
pub proof fn lemma_relocation_shift(d: Seq<u8>, machine_type: u16, b1: u64, b2: u64, k: int)
    requires
        loaded_memory(d, machine_type, b1) is Ok,
        loaded_memory(d, machine_type, b2) is Ok,
        fixups_disjoint(image_fixups(d, layout_of(d, machine_type).unwrap()).unwrap()),
        0 <= k < image_fixups(d, layout_of(d, machine_type).unwrap()).unwrap().len(),
    ensures
        ({
            let f = image_fixups(d, layout_of(d, machine_type).unwrap()).unwrap()[k];
            let m1 = loaded_memory(d, machine_type, b1).unwrap();
            let m2 = loaded_memory(d, machine_type, b2).unwrap();
            read_le(m2, f.offset as int, f.width as nat) == (read_le(
                m1,
                f.offset as int,
                f.width as nat,
            ) + (b2 - b1)) % (pow256(f.width as nat) as int)
        }),
{
    let l = layout_of(d, machine_type).unwrap();
    let fs = image_fixups(d, l).unwrap();
    let f = fs[k];
    let mem = image_memory(d, l);
    let r = read_le(mem, f.offset as int, f.width as nat) as int;
    let w = f.width as nat;
    let m = pow256(w) as int;
    lemma_sections_copied_len(d, l.size_of_image as nat, l.num_sections as int);
    lemma_apply_fixups_field(mem, fs, load_delta(l, b1), k);
    lemma_apply_fixups_field(mem, fs, load_delta(l, b2), k);
    let x1 = b1 - l.image_base;
    let x2 = b2 - l.image_base;
    lemma_shift_mod(r, load_delta(l, b1), x1, w);
    lemma_shift_mod(r, load_delta(l, b2), x2, w);
    lemma_pow256_positive(w);
    let v1 = (r + x1) % m;
    vstd::arithmetic::div_mod::lemma_add_mod_noop(r + x1, b2 - b1, m);
    vstd::arithmetic::div_mod::lemma_mod_mod(b2 - b1, m, 1);
    assert((v1 + (b2 - b1)) % m == (r + x2) % m) by {
        vstd::arithmetic::div_mod::lemma_add_mod_noop(v1, b2 - b1, m);
        vstd::arithmetic::div_mod::lemma_mod_twice(r + x1, m);
    }
}

} // verus!
