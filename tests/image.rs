use lanzaboote_stub::config::{decode_text, extract_string, EmbeddedConfiguration};
use lanzaboote_stub::loader::{parse_image, parse_relocations, Fixup, ImageError, LoadedImage};
use lanzaboote_stub::pe::{pe_section, read_uint, write_uint, MACHINE_AARCH64, MACHINE_X86_64};
use lanzaboote_stub::status::{INVALID_PARAMETER, LOAD_ERROR, UNSUPPORTED};

struct Section {
    name: &'static [u8],
    va: u32,
    vsize: u32,
    data: Vec<u8>,
}

const OPT_SIZE: usize = 240;

fn put16(d: &mut Vec<u8>, off: usize, v: u16) {
    d[off..off + 2].copy_from_slice(&v.to_le_bytes());
}

fn put32(d: &mut Vec<u8>, off: usize, v: u32) {
    d[off..off + 4].copy_from_slice(&v.to_le_bytes());
}

fn put64(d: &mut Vec<u8>, off: usize, v: u64) {
    d[off..off + 8].copy_from_slice(&v.to_le_bytes());
}

/// A PE32+ image with the given sections, their raw data after the headers.
fn build_pe(
    machine: u16,
    sections: &[Section],
    entry: u32,
    image_base: u64,
    size_of_image: u32,
    reloc: Option<(u32, u32)>,
    characteristics: u16,
) -> Vec<u8> {
    let table = 0x40 + 24 + OPT_SIZE;
    let headers = table + 40 * sections.len();
    let mut d = vec![0u8; headers];
    d[0] = b'M';
    d[1] = b'Z';
    put32(&mut d, 0x3c, 0x40);
    d[0x40..0x44].copy_from_slice(b"PE\0\0");
    put16(&mut d, 0x44, machine);
    put16(&mut d, 0x46, sections.len() as u16);
    put16(&mut d, 0x54, OPT_SIZE as u16);
    put16(&mut d, 0x56, characteristics);
    let o = 0x58;
    put16(&mut d, o, 0x20b);
    put32(&mut d, o + 16, entry);
    put64(&mut d, o + 24, image_base);
    put32(&mut d, o + 32, 0x1000);
    put32(&mut d, o + 56, size_of_image);
    put32(&mut d, o + 108, 16);
    if let Some((rva, size)) = reloc {
        put32(&mut d, o + 152, rva);
        put32(&mut d, o + 156, size);
    }
    for (i, s) in sections.iter().enumerate() {
        let h = table + 40 * i;
        d[h..h + s.name.len()].copy_from_slice(s.name);
        let ptr = d.len() as u32;
        put32(&mut d, h + 8, s.vsize);
        put32(&mut d, h + 12, s.va);
        put32(&mut d, h + 16, s.data.len() as u32);
        put32(&mut d, h + 20, ptr);
        d.extend_from_slice(&s.data);
    }
    d
}

fn utf16z(s: &str) -> Vec<u8> {
    let mut out = Vec::new();
    for u in s.encode_utf16() {
        out.extend_from_slice(&u.to_le_bytes());
    }
    out.extend_from_slice(&[0, 0]);
    out
}

fn units(s: &str) -> Vec<u16> {
    s.encode_utf16().collect()
}

fn text_section(name: &'static [u8], text: &str) -> Section {
    let data = utf16z(text);
    Section { name, va: 0, vsize: data.len() as u32, data }
}

fn stub_image(order: &[usize]) -> Vec<u8> {
    let all = [
        (&b".kernelp"[..], "\\vmlinuz"),
        (&b".initrdp"[..], "\\initrd.img"),
        (&b".cmdline"[..], "console=ttyS0"),
    ];
    let sections: Vec<Section> =
        order.iter().map(|&i| text_section(all[i].0, all[i].1)).collect();
    build_pe(MACHINE_X86_64, &sections, 0, 0, 0x1000, None, 0)
}

#[test]
fn section_reader_finds_named_section() {
    let img = stub_image(&[0, 1, 2]);
    let got = pe_section(&img, b".initrdp").unwrap();
    assert_eq!(got, utf16z("\\initrd.img"));
    assert!(pe_section(&img, b".text").is_none());
    assert!(pe_section(&img, b".initrd").is_none());
}

#[test]
fn section_reader_rejects_bad_magic() {
    let mut img = stub_image(&[0, 1, 2]);
    img[0] = b'X';
    assert!(pe_section(&img, b".kernelp").is_none());
    let mut img = stub_image(&[0, 1, 2]);
    img[0x42] = b'X';
    assert!(pe_section(&img, b".kernelp").is_none());
}

#[test]
fn section_reader_rejects_content_past_end() {
    let mut img = stub_image(&[0]);
    let h = 0x40 + 24 + OPT_SIZE;
    put32(&mut img, h + 8, 0x10000);
    assert!(pe_section(&img, b".kernelp").is_none());
}

#[test]
fn configuration_extracts_three_strings() {
    let img = stub_image(&[0, 1, 2]);
    let c = EmbeddedConfiguration::new(&img).ok().unwrap();
    assert_eq!(c.kernel_filename, units("\\vmlinuz"));
    assert_eq!(c.initrd_filename, units("\\initrd.img"));
    assert_eq!(c.cmdline, units("console=ttyS0"));
}

#[test]
fn configuration_independent_of_section_order() {
    let a = EmbeddedConfiguration::new(&stub_image(&[0, 1, 2])).ok().unwrap();
    let b = EmbeddedConfiguration::new(&stub_image(&[2, 0, 1])).ok().unwrap();
    assert_eq!(a.kernel_filename, b.kernel_filename);
    assert_eq!(a.initrd_filename, b.initrd_filename);
    assert_eq!(a.cmdline, b.cmdline);
}

#[test]
fn configuration_missing_section_is_invalid_parameter() {
    for order in [[0usize, 1], [0, 2], [1, 2]] {
        let img = stub_image(&order);
        let e = EmbeddedConfiguration::new(&img).err().unwrap();
        assert_eq!(e.code, INVALID_PARAMETER);
    }
}

#[test]
fn configuration_bad_utf16_is_invalid_parameter() {
    // a lone low surrogate in the command line
    let bad = Section { name: b".cmdline", va: 0, vsize: 4, data: vec![0x00, 0xdc, 0, 0] };
    let img = build_pe(
        MACHINE_X86_64,
        &[text_section(b".kernelp", "k"), text_section(b".initrdp", "i"), bad],
        0,
        0,
        0x1000,
        None,
        0,
    );
    let e = EmbeddedConfiguration::new(&img).err().unwrap();
    assert_eq!(e.code, INVALID_PARAMETER);
}

#[test]
fn text_needs_terminator() {
    assert_eq!(decode_text(&[0x41, 0, 0x42, 0]), None);
    assert_eq!(decode_text(&[0x41, 0, 0, 0, 0x42, 0]), Some(vec![0x41]));
    assert_eq!(decode_text(&[]), None);
    assert_eq!(decode_text(&[0, 0]), Some(vec![]));
}

#[test]
fn text_accepts_surrogate_pairs_only_paired() {
    assert_eq!(decode_text(&[0x3d, 0xd8, 0x00, 0xde, 0, 0]), Some(vec![0xd83d, 0xde00]));
    assert_eq!(decode_text(&[0x3d, 0xd8, 0x41, 0x00, 0, 0]), None);
    assert_eq!(decode_text(&[0x3d, 0xd8, 0, 0]), None);
}

#[test]
fn extract_string_reports_invalid_parameter() {
    let img = stub_image(&[0]);
    assert_eq!(extract_string(&img, b".kernelp").ok().unwrap(), units("\\vmlinuz"));
    assert_eq!(extract_string(&img, b".cmdline").err().unwrap().code, INVALID_PARAMETER);
}

#[test]
fn little_endian_fields() {
    let d = [0x78u8, 0x56, 0x34, 0x12, 0xff];
    assert_eq!(read_uint(&d, 0, 4), 0x12345678);
    assert_eq!(read_uint(&d, 1, 2), 0x3456);
    let mut v = vec![0u8; 10];
    write_uint(&mut v, 1, 0x1122334455667788, 8);
    assert_eq!(v, vec![0, 0x88, 0x77, 0x66, 0x55, 0x44, 0x33, 0x22, 0x11, 0]);
    write_uint(&mut v, 0, 0xabcd_ef01, 2);
    assert_eq!(&v[..3], &[0x01, 0xef, 0x77]);
}

fn code_section(data: Vec<u8>, vsize: u32) -> Section {
    Section { name: b".text", va: 0x1000, vsize, data }
}

#[test]
fn minimal_executable_loads_with_entry_at_base_plus_offset() {
    let img = build_pe(
        MACHINE_X86_64,
        &[code_section(vec![0xc3, 0x90, 0x90, 0x90], 0x10)],
        0x1002,
        0x400000,
        0x2000,
        None,
        0,
    );
    let base = 0x7654_0000u64;
    let l = LoadedImage::load(&img, MACHINE_X86_64, base).ok().unwrap();
    assert_eq!(l.base, base);
    assert_eq!(l.entry, base + 0x1002);
    assert_eq!(l.size, 0x2000);
    assert_eq!(l.pages, 2);
    assert_eq!(l.alignment, 0x1000);
    assert_eq!(l.memory.len(), 0x2000);
    assert_eq!(&l.memory[0x1000..0x1004], &[0xc3, 0x90, 0x90, 0x90]);
    // the rest of the section and the image stay zero
    assert!(l.memory[0x1004..].iter().all(|&b| b == 0));
    assert!(l.memory[..0x1000].iter().all(|&b| b == 0));
}

#[test]
fn raw_data_beyond_virtual_size_is_not_copied() {
    let img = build_pe(
        MACHINE_X86_64,
        &[code_section(vec![1, 2, 3, 4], 2)],
        0x1000,
        0,
        0x2000,
        None,
        0,
    );
    let l = LoadedImage::load(&img, MACHINE_X86_64, 0x10000).ok().unwrap();
    assert_eq!(&l.memory[0x1000..0x1004], &[1, 2, 0, 0]);
}

#[test]
fn machine_mismatch_fails_before_loading() {
    let img = build_pe(MACHINE_AARCH64, &[code_section(vec![0xc3], 1)], 0x1000, 0, 0x2000, None, 0);
    assert_eq!(parse_image(&img, MACHINE_X86_64), Err(ImageError::MachineMismatch));
    let e = LoadedImage::load(&img, MACHINE_X86_64, 0x10000).err().unwrap();
    assert_eq!(e, ImageError::MachineMismatch);
    assert_eq!(e.status().code, UNSUPPORTED);
    assert!(parse_image(&img, MACHINE_AARCH64).is_ok());
}

#[test]
fn truncated_image_is_load_error() {
    let img = build_pe(MACHINE_X86_64, &[code_section(vec![0xc3], 1)], 0x1000, 0, 0x2000, None, 0);
    let cut = &img[..0x60];
    let e = LoadedImage::load(cut, MACHINE_X86_64, 0x10000).err().unwrap();
    assert_eq!(e, ImageError::BadContainer);
    assert_eq!(e.status().code, LOAD_ERROR);
}

#[test]
fn entry_outside_image_is_rejected() {
    let img = build_pe(MACHINE_X86_64, &[code_section(vec![0xc3], 1)], 0x2000, 0, 0x2000, None, 0);
    assert_eq!(parse_image(&img, MACHINE_X86_64), Err(ImageError::BadOptionalHeader));
}

#[test]
fn section_outside_image_is_rejected() {
    let img = build_pe(MACHINE_X86_64, &[code_section(vec![0xc3], 0x1001)], 0x1000, 0, 0x2000, None, 0);
    assert_eq!(parse_image(&img, MACHINE_X86_64), Err(ImageError::SectionOutOfBounds));
}

/// An image whose `.reloc` section patches a 64-bit field at 0x1010 and a
/// 32-bit field at 0x1020 of `.text`.
fn relocatable_image(kind64: u16) -> Vec<u8> {
    let mut text = vec![0u8; 0x30];
    text[0x10..0x18].copy_from_slice(&0x0000_0001_4000_1234u64.to_le_bytes());
    text[0x20..0x24].copy_from_slice(&0x4000_5678u32.to_le_bytes());
    let mut reloc = Vec::new();
    reloc.extend_from_slice(&0x1000u32.to_le_bytes());
    reloc.extend_from_slice(&16u32.to_le_bytes());
    reloc.extend_from_slice(&((kind64 << 12) | 0x010).to_le_bytes());
    reloc.extend_from_slice(&((3u16 << 12) | 0x020).to_le_bytes());
    reloc.extend_from_slice(&0u16.to_le_bytes());
    reloc.extend_from_slice(&0u16.to_le_bytes());
    let rsize = reloc.len() as u32;
    build_pe(
        MACHINE_X86_64,
        &[
            Section { name: b".text", va: 0x1000, vsize: 0x30, data: text },
            Section { name: b".reloc", va: 0x2000, vsize: rsize, data: reloc },
        ],
        0x1000,
        0x1_4000_0000,
        0x3000,
        Some((0x2000, rsize)),
        0,
    )
}

fn field64(m: &[u8], off: usize) -> u64 {
    u64::from_le_bytes(m[off..off + 8].try_into().unwrap())
}

fn field32(m: &[u8], off: usize) -> u32 {
    u32::from_le_bytes(m[off..off + 4].try_into().unwrap())
}

#[test]
fn relocations_shift_fields_by_base_difference() {
    let img = relocatable_image(10);
    let b1 = 0x1_4000_0000u64;
    let b2 = 0x2000_0000u64;
    let m1 = LoadedImage::load(&img, MACHINE_X86_64, b1).ok().unwrap().memory;
    let m2 = LoadedImage::load(&img, MACHINE_X86_64, b2).ok().unwrap().memory;
    // at the preferred base nothing moves
    assert_eq!(field64(&m1, 0x1010), 0x0000_0001_4000_1234);
    assert_eq!(field32(&m1, 0x1020), 0x4000_5678);
    assert_eq!(field64(&m2, 0x1010), field64(&m1, 0x1010).wrapping_add(b2.wrapping_sub(b1)));
    assert_eq!(field64(&m2, 0x1010), 0x2000_1234);
    assert_eq!(field32(&m2, 0x1020), field32(&m1, 0x1020).wrapping_add(b2.wrapping_sub(b1) as u32));
    assert_eq!(field32(&m2, 0x1020), 0x2000_5678);
}

#[test]
fn unknown_relocation_kind_is_rejected() {
    let img = relocatable_image(7);
    let e = LoadedImage::load(&img, MACHINE_X86_64, 0x2000_0000).err().unwrap();
    assert_eq!(e, ImageError::BadRelocations);
}

#[test]
fn stripped_image_loads_only_at_its_base() {
    let img = build_pe(MACHINE_X86_64, &[code_section(vec![0xc3], 1)], 0x1000, 0x400000, 0x2000, None, 1);
    let e = LoadedImage::load(&img, MACHINE_X86_64, 0x500000).err().unwrap();
    assert_eq!(e, ImageError::NotRelocatable);
    let l = LoadedImage::load(&img, MACHINE_X86_64, 0x400000).ok().unwrap();
    assert_eq!(l.entry, 0x401000);
}

#[test]
fn relocation_table_parsing() {
    let mut t = Vec::new();
    t.extend_from_slice(&0x3000u32.to_le_bytes());
    t.extend_from_slice(&12u32.to_le_bytes());
    t.extend_from_slice(&((2u16 << 12) | 0x8).to_le_bytes());
    t.extend_from_slice(&((10u16 << 12) | 0xff8).to_le_bytes());
    let f = parse_relocations(&t).unwrap();
    assert_eq!(f, vec![Fixup { offset: 0x3008, width: 2 }, Fixup { offset: 0x3ff8, width: 8 }]);
    // a block shorter than its header
    let mut bad = t.clone();
    put32(&mut bad, 4, 4);
    assert!(parse_relocations(&bad).is_none());
    // a cut-off block header
    let mut cut = t.clone();
    cut.extend_from_slice(&[0, 0, 0]);
    assert!(parse_relocations(&cut).is_none());
    assert_eq!(parse_relocations(&[]).unwrap(), vec![]);
}
