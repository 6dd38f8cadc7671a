//! Byte-level model of the PE/COFF container: little-endian fields, the
//! header chain (DOS stub, `PE\0\0` signature, COFF header, optional header)
//! and the section table, plus the section reader built on them.
use vstd::prelude::*;
use vstd::slice::{slice_subrange, slice_to_vec};

verus! {

/// `256^n`.
pub open spec fn pow256(n: nat) -> nat
    decreases n,
{
    if n == 0 {
        1
    } else {
        256 * pow256((n - 1) as nat)
    }
}

/// The unsigned little-endian value of the `n` bytes of `d` starting at `off`.
pub open spec fn read_le(d: Seq<u8>, off: int, n: nat) -> nat
    decreases n,
{
    if n == 0 {
        0
    } else {
        (d[off] as nat + 256 * read_le(d, off + 1, (n - 1) as nat)) as nat
    }
}

/// `d` with the `n` bytes starting at `off` replaced by the little-endian
/// encoding of `v` modulo `256^n`.
pub open spec fn write_le(d: Seq<u8>, off: int, v: nat, n: nat) -> Seq<u8>
    decreases n,
{
    if n == 0 {
        d
    } else {
        write_le(d.update(off, (v % 256) as u8), off + 1, v / 256, (n - 1) as nat)
    }
}

pub proof fn lemma_pow256_positive(n: nat)
    ensures
        pow256(n) > 0,
    decreases n,
{
    if n > 0 {
        lemma_pow256_positive((n - 1) as nat);
    }
}

pub proof fn lemma_read_le_bound(d: Seq<u8>, off: int, n: nat)
    ensures
        read_le(d, off, n) < pow256(n),
    decreases n,
{
    if n > 0 {
        lemma_read_le_bound(d, off + 1, (n - 1) as nat);
    }
}

/// Reading a field depends only on the bytes of that field.
pub proof fn lemma_read_le_frame(a: Seq<u8>, b: Seq<u8>, off: int, n: nat)
    requires
        forall|k: int| off <= k < off + n ==> a[k] == b[k],
    ensures
        read_le(a, off, n) == read_le(b, off, n),
    decreases n,
{
    if n > 0 {
        lemma_read_le_frame(a, b, off + 1, (n - 1) as nat);
    }
}

/// Writing a field leaves the length and every byte outside the field alone.
pub proof fn lemma_write_le_frame(d: Seq<u8>, off: int, v: nat, n: nat)
    requires
        0 <= off,
        off + n <= d.len(),
    ensures
        write_le(d, off, v, n).len() == d.len(),
        forall|k: int|
            0 <= k < d.len() && !(off <= k < off + n) ==> #[trigger] write_le(d, off, v, n)[k]
                == d[k],
    decreases n,
{
    if n > 0 {
        lemma_write_le_frame(d.update(off, (v % 256) as u8), off + 1, v / 256, (n - 1) as nat);
    }
}

/// Reading back a written field gives the value modulo `256^n`.
pub proof fn lemma_read_write_le(d: Seq<u8>, off: int, v: nat, n: nat)
    requires
        0 <= off,
        off + n <= d.len(),
    ensures
        read_le(write_le(d, off, v, n), off, n) == v % pow256(n),
    decreases n,
{
    if n > 0 {
        let d1 = d.update(off, (v % 256) as u8);
        let m = (n - 1) as nat;
        lemma_read_write_le(d1, off + 1, v / 256, m);
        lemma_write_le_frame(d1, off + 1, v / 256, m);
        lemma_pow256_positive(m);
        vstd::arithmetic::div_mod::lemma_mod_breakdown(v as int, 256, pow256(m) as int);
    }
}

/// Reads an unsigned little-endian field of `n` bytes.
pub fn read_uint(d: &[u8], off: usize, n: usize) -> (r: u64)
    requires
        n <= 8,
        off + n <= d@.len(),
    ensures
        r as nat == read_le(d@, off as int, n as nat),
        n == 2 ==> r < 0x10000,
        n == 4 ==> r < 0x100000000,
{
    proof {
        lemma_read_le_bound(d@, off as int, n as nat);
        reveal_with_fuel(pow256, 5);
    }
    let len = d.len();
    let mut v: u64 = 0;
    let mut i: usize = n;
    while i > 0
        invariant
            len == d@.len(),
            i <= n <= 8,
            off + n <= d@.len(),
            v as nat == read_le(d@, (off + i) as int, (n - i) as nat),
        decreases i,
    {
        proof {
            lemma_read_le_bound(d@, (off + i) as int, (n - i) as nat);
            assert(pow256((n - i) as nat) <= pow256(7)) by {
                lemma_pow256_mono((n - i) as nat, 7);
            }
            assert(pow256(7) == 0x100000000000000) by {
                reveal_with_fuel(pow256, 8);
            }
        }
        i = i - 1;
        v = v * 256 + d[off + i] as u64;
    }
    v
}

pub proof fn lemma_pow256_mono(a: nat, b: nat)
    requires
        a <= b,
    ensures
        pow256(a) <= pow256(b),
    decreases b,
{
    if a < b {
        lemma_pow256_mono(a, (b - 1) as nat);
    }
}

/// Writes `v` modulo `256^n` as an unsigned little-endian field of `n` bytes.
pub fn write_uint(d: &mut Vec<u8>, off: usize, v: u64, n: usize)
    requires
        n <= 8,
        off + n <= old(d)@.len(),
    ensures
        final(d)@ == write_le(old(d)@, off as int, v as nat, n as nat),
{
    let ghost orig = d@;
    let len = d.len();
    let mut w: u64 = v;
    let mut i: usize = 0;
    assert(write_le(orig, (off + i) as int, w as nat, (n - i) as nat) == write_le(
        orig,
        off as int,
        v as nat,
        n as nat,
    ));
    while i < n
        invariant
            i <= n <= 8,
            off + n <= d@.len(),
            len == d@.len(),
            d@.len() == orig.len(),
            write_le(d@, (off + i) as int, w as nat, (n - i) as nat) == write_le(
                orig,
                off as int,
                v as nat,
                n as nat,
            ),
        decreases n - i,
    {
        d.set(off + i, (w % 256) as u8);
        w = w / 256;
        i = i + 1;
    }
}

/// Machine types of the COFF header.
pub const MACHINE_X86_64: u16 = 0x8664;

pub const MACHINE_AARCH64: u16 = 0xaa64;

/// Offset of the DOS header field that points at the `PE\0\0` signature.
pub const PE_POINTER: usize = 0x3c;

/// Size of one entry of the section table.
pub const SECTION_HEADER_SIZE: usize = 40;

/// Offset of the signature.
pub open spec fn pe_offset(d: Seq<u8>) -> int {
    read_le(d, PE_POINTER as int, 4) as int
}

/// Offset of the COFF header, right after the signature.
pub open spec fn coff_offset(d: Seq<u8>) -> int {
    pe_offset(d) + 4
}

pub open spec fn machine(d: Seq<u8>) -> int {
    read_le(d, coff_offset(d), 2) as int
}

pub open spec fn num_sections(d: Seq<u8>) -> int {
    read_le(d, coff_offset(d) + 2, 2) as int
}

pub open spec fn optional_header_size(d: Seq<u8>) -> int {
    read_le(d, coff_offset(d) + 16, 2) as int
}

pub open spec fn coff_characteristics(d: Seq<u8>) -> int {
    read_le(d, coff_offset(d) + 18, 2) as int
}

/// Offset of the optional header, after the 20-byte COFF header.
pub open spec fn optional_header_offset(d: Seq<u8>) -> int {
    coff_offset(d) + 20
}

/// Offset of the `i`-th entry of the section table.
pub open spec fn section_header(d: Seq<u8>, i: int) -> int {
    optional_header_offset(d) + optional_header_size(d) + 40 * i
}

/// The container is well formed: the DOS magic `MZ`, the signature
/// `PE\0\0` at the offset the DOS header names, and a section table that
/// lies within the buffer.
pub open spec fn container_valid(d: Seq<u8>) -> bool {
    &&& d.len() >= 0x40
    &&& d[0] == 0x4d && d[1] == 0x5a
    &&& pe_offset(d) + 24 <= d.len()
    &&& d[pe_offset(d)] == 0x50 && d[pe_offset(d) + 1] == 0x45
    &&& d[pe_offset(d) + 2] == 0 && d[pe_offset(d) + 3] == 0
    &&& section_header(d, num_sections(d)) <= d.len()
}

/// The 8-byte name field of the section header at `h` holds `name`, padded
/// with zero bytes.
pub open spec fn name_matches(d: Seq<u8>, h: int, name: Seq<u8>) -> bool {
    &&& name.len() <= 8
    &&& forall|j: int| 0 <= j < 8 ==> d[h + j] == #[trigger] padded_name_byte(name, j)
}

/// Byte `j` of `name` padded with zeros.
pub open spec fn padded_name_byte(name: Seq<u8>, j: int) -> u8 {
    if j < name.len() {
        name[j]
    } else {
        0u8
    }
}

/// Index of the first section at or after `i` whose name is `name`.
pub open spec fn first_section_from(d: Seq<u8>, name: Seq<u8>, i: int) -> Option<int>
    decreases num_sections(d) - i,
{
    if i < 0 || i >= num_sections(d) {
        None
    } else if name_matches(d, section_header(d, i), name) {
        Some(i)
    } else {
        first_section_from(d, name, i + 1)
    }
}

pub open spec fn section_virtual_size(d: Seq<u8>, i: int) -> int {
    read_le(d, section_header(d, i) + 8, 4) as int
}

pub open spec fn section_virtual_address(d: Seq<u8>, i: int) -> int {
    read_le(d, section_header(d, i) + 12, 4) as int
}

pub open spec fn section_raw_size(d: Seq<u8>, i: int) -> int {
    read_le(d, section_header(d, i) + 16, 4) as int
}

pub open spec fn section_raw_pointer(d: Seq<u8>, i: int) -> int {
    read_le(d, section_header(d, i) + 20, 4) as int
}

/// The content of the first section named `name`: the `VirtualSize` bytes
/// at its `PointerToRawData`; none where the container is malformed, no
/// section has that name, or the content does not lie within the buffer.
pub open spec fn section_content(d: Seq<u8>, name: Seq<u8>) -> Option<Seq<u8>> {
    if !container_valid(d) {
        None
    } else {
        match first_section_from(d, name, 0) {
            None => None,
            Some(i) => {
                let start = section_raw_pointer(d, i);
                let end = start + section_virtual_size(d, i);
                if end <= d.len() {
                    Some(d.subrange(start, end))
                } else {
                    None
                }
            },
        }
    }
}

/// Checks the container and returns the offset of the signature.
pub fn check_container(d: &[u8]) -> (r: Option<usize>)
    ensures
        r is Some <==> container_valid(d@),
        r matches Some(p) ==> p as int == pe_offset(d@),
{
    if d.len() < 0x40 || d[0] != 0x4d || d[1] != 0x5a {
        return None;
    }
    let pe = read_uint(d, PE_POINTER, 4);
    if pe > (d.len() - 24) as u64 {
        return None;
    }
    let pe = pe as usize;
    if d[pe] != 0x50 || d[pe + 1] != 0x45 || d[pe + 2] != 0 || d[pe + 3] != 0 {
        return None;
    }
    let n = read_uint(d, pe + 6, 2) as usize;
    let opt = read_uint(d, pe + 20, 2) as usize;
    // pe + 24 <= len, so the section table starts at most 65535 bytes later.
    let avail = d.len() - (pe + 24);
    if opt > avail || n > (avail - opt) / SECTION_HEADER_SIZE {
        return None;
    }
    Some(pe)
}

/// Returns the index of the first section named `name`.
pub fn find_section_index(d: &[u8], pe: usize, name: &[u8]) -> (r: Option<usize>)
    requires
        container_valid(d@),
        pe as int == pe_offset(d@),
    ensures
        r matches Some(i) ==> first_section_from(d@, name@, 0) == Some(i as int) && i
            < num_sections(d@),
        r is None ==> first_section_from(d@, name@, 0) is None,
{
    let len = d.len();
    let n = read_uint(d, pe + 6, 2) as usize;
    let table = pe + 24 + read_uint(d, pe + 20, 2) as usize;
    if name.len() > 8 {
        let ghost dd = d@;
        assert forall|i: int| 0 <= i <= n implies first_section_from(dd, name@, i) is None by {
            lemma_first_none_long_name(dd, name@, i);
        }
        return None;
    }
    let mut i: usize = 0;
    while i < n
        invariant
            len == d@.len(),
            container_valid(d@),
            pe as int == pe_offset(d@),
            n as int == num_sections(d@),
            table as int == section_header(d@, 0),
            section_header(d@, n as int) <= d@.len(),
            name@.len() <= 8,
            i <= n,
            first_section_from(d@, name@, 0) == first_section_from(d@, name@, i as int),
        decreases n - i,
    {
        let h = table + SECTION_HEADER_SIZE * i;
        let mut j: usize = 0;
        let mut same = true;
        while j < 8
            invariant
                len == d@.len(),
                j <= 8,
                i < n,
                h as int == section_header(d@, i as int),
                h + 40 <= d@.len(),
                name@.len() <= 8,
                same <==> forall|k: int|
                    0 <= k < j ==> d@[h + k] == #[trigger] padded_name_byte(name@, k),
            decreases 8 - j,
        {
            let want: u8 = if j < name.len() {
                name[j]
            } else {
                0
            };
            assert(want == padded_name_byte(name@, j as int));
            if d[h + j] != want {
                same = false;
            }
            assert(d@[h + j] == padded_name_byte(name@, j as int) ==> d@[h + j] == want);
            j = j + 1;
        }
        assert(same <==> name_matches(d@, section_header(d@, i as int), name@));
        if same {
            return Some(i);
        }
        i = i + 1;
    }
    None
}

proof fn lemma_first_none_long_name(d: Seq<u8>, name: Seq<u8>, i: int)
    requires
        name.len() > 8,
    ensures
        first_section_from(d, name, i) is None,
    decreases num_sections(d) - i,
{
    if 0 <= i < num_sections(d) {
        lemma_first_none_long_name(d, name, i + 1);
    }
}

/// Section reader: the raw content of the first section named `name`.
pub fn pe_section(d: &[u8], name: &[u8]) -> (r: Option<Vec<u8>>)
    ensures
        r matches Some(v) ==> section_content(d@, name@) == Some(v@),
        r is None ==> section_content(d@, name@) is None,
{
    let len = d.len();
    let pe = match check_container(d) {
        Some(p) => p,
        None => return None,
    };
    let i = match find_section_index(d, pe, name) {
        Some(i) => i,
        None => return None,
    };
    let opt = read_uint(d, pe + 20, 2) as usize;
    assert(section_header(d@, i as int) + 40 <= section_header(d@, num_sections(d@)));
    let h = pe + 24 + opt + SECTION_HEADER_SIZE * i;
    let size = read_uint(d, h + 8, 4) as usize;
    let start = read_uint(d, h + 20, 4) as usize;
    if start > d.len() || size > d.len() - start {
        return None;
    }
    Some(slice_to_vec(slice_subrange(d, start, start + size)))
}

} // verus!
