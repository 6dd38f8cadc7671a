use lanzaboote_stub::boot::{place_image, Action, Boot, Event, Phase};
use lanzaboote_stub::initrd::InitrdLoader;
use lanzaboote_stub::pe::MACHINE_X86_64;
use lanzaboote_stub::status::{Status, BUFFER_TOO_SMALL, LOAD_ERROR, NOT_FOUND, SUCCESS};

fn put16(d: &mut Vec<u8>, off: usize, v: u16) {
    d[off..off + 2].copy_from_slice(&v.to_le_bytes());
}

fn put32(d: &mut Vec<u8>, off: usize, v: u32) {
    d[off..off + 4].copy_from_slice(&v.to_le_bytes());
}

/// A PE32+ image for x86-64 with the given (name, virtual address, data)
/// sections.
fn pe(sections: &[(&[u8], u32, Vec<u8>)], entry: u32, size_of_image: u32) -> Vec<u8> {
    let table = 0x40 + 24 + 240;
    let mut d = vec![0u8; table + 40 * sections.len()];
    d[0] = b'M';
    d[1] = b'Z';
    put32(&mut d, 0x3c, 0x40);
    d[0x40..0x44].copy_from_slice(b"PE\0\0");
    put16(&mut d, 0x44, MACHINE_X86_64);
    put16(&mut d, 0x46, sections.len() as u16);
    put16(&mut d, 0x54, 240);
    put16(&mut d, 0x58, 0x20b);
    put32(&mut d, 0x58 + 16, entry);
    put32(&mut d, 0x58 + 32, 0x1000);
    put32(&mut d, 0x58 + 56, size_of_image);
    put32(&mut d, 0x58 + 108, 16);
    for (i, (name, va, data)) in sections.iter().enumerate() {
        let h = table + 40 * i;
        d[h..h + name.len()].copy_from_slice(name);
        let ptr = d.len() as u32;
        put32(&mut d, h + 8, data.len() as u32);
        put32(&mut d, h + 12, *va);
        put32(&mut d, h + 16, data.len() as u32);
        put32(&mut d, h + 20, ptr);
        d.extend_from_slice(data);
    }
    d
}

fn utf16z(s: &str) -> Vec<u8> {
    let mut out = Vec::new();
    for u in s.encode_utf16() {
        out.extend_from_slice(&u.to_le_bytes());
    }
    out.extend_from_slice(&[0, 0]);
    out
}

fn units(s: &str) -> Vec<u16> {
    s.encode_utf16().collect()
}

fn stub() -> Vec<u8> {
    pe(
        &[
            (b".kernelp", 0, utf16z("\\vmlinuz")),
            (b".initrdp", 0, utf16z("\\initrd.img")),
            (b".cmdline", 0, utf16z("console=ttyS0")),
        ],
        0,
        0x1000,
    )
}

fn kernel() -> Vec<u8> {
    pe(&[(b".text", 0x1000, vec![0xc3; 16])], 0x1004, 0x2000)
}

/// Runs the sequence up to the point where the kernel files have been read.
fn run_to_load(kernel_bytes: Vec<u8>) -> (Boot, Action, Vec<Action>) {
    let mut seen = Vec::new();
    let b = Boot::new(MACHINE_X86_64);
    let (b, a) = b.step(Event::Begin);
    assert!(matches!(a, Action::ReadOwnImage));
    let (b, a) = b.step(Event::Bytes { data: stub() });
    match &a {
        Action::ReadFile { path } => assert_eq!(*path, units("\\vmlinuz")),
        _ => panic!("expected a kernel read"),
    }
    let (b, a) = b.step(Event::Bytes { data: kernel_bytes });
    match &a {
        Action::ReadFile { path } => assert_eq!(*path, units("\\initrd.img")),
        _ => panic!("expected an initrd read"),
    }
    let (b, a) = b.step(Event::Bytes { data: vec![7, 7, 7] });
    seen.push(a);
    let a = seen.pop().unwrap();
    (b, a, seen)
}

#[test]
fn boot_reaches_start_once_and_never_reports() {
    let (b, a, _) = run_to_load(kernel());
    let pages = match a {
        Action::AllocatePages { pages, alignment } => {
            assert_eq!(alignment, 0x1000);
            pages
        }
        _ => panic!("expected an allocation"),
    };
    assert_eq!(pages, 2);
    let (b, a) = b.step(Event::Allocated { base: 0x8000_0000 });
    match &a {
        Action::InstallInitrd { initrd } => assert_eq!(*initrd, vec![7, 7, 7]),
        _ => panic!("expected the initrd to be installed"),
    }
    let (b, a) = b.step(Event::Done);
    let mut starts = 0;
    match &a {
        Action::Start { image, cmdline } => {
            starts += 1;
            assert_eq!(image.entry, 0x8000_0000 + 0x1004);
            assert_eq!(image.base, 0x8000_0000);
            assert_eq!(*cmdline, units("console=ttyS0"));
            assert_eq!(&image.memory[0x1000..0x1010], &[0xc3; 16]);
        }
        _ => panic!("expected the kernel to be started"),
    }
    assert_eq!(starts, 1);
    // the entry never returns: no further step is taken
    assert_eq!(b.phase, Phase::Start);
    assert!(!matches!(a, Action::Report { .. }));
}

#[test]
fn truncated_kernel_reports_load_error_without_start() {
    let k = kernel();
    let (b, a, _) = run_to_load(k[..0x50].to_vec());
    match a {
        Action::Report { status } => assert_eq!(status.code, LOAD_ERROR),
        _ => panic!("expected a load error"),
    }
    assert_eq!(b.phase, Phase::ReportStatus);
    // whatever comes next, neither the initrd nor the kernel is touched
    let (b, a) = b.step(Event::Done);
    assert!(matches!(a, Action::Report { .. }));
    assert_eq!(b.phase, Phase::ReportStatus);
}

#[test]
fn returned_kernel_uninstalls_then_reports_its_status() {
    let (b, _, _) = run_to_load(kernel());
    let (b, _) = b.step(Event::Allocated { base: 0x100000 });
    let (b, _) = b.step(Event::Done);
    let (b, a) = b.step(Event::Returned { status: Status::new(0x8000_0000_0000_0015) });
    assert!(matches!(a, Action::UninstallInitrd));
    let (b, a) = b.step(Event::Done);
    match a {
        Action::Report { status } => assert_eq!(status.code, 0x8000_0000_0000_0015),
        _ => panic!("expected the kernel's status"),
    }
    assert_eq!(b.phase, Phase::ReportStatus);
}

#[test]
fn failed_file_read_reports_its_status() {
    let b = Boot::new(MACHINE_X86_64);
    let (b, _) = b.step(Event::Begin);
    let (b, _) = b.step(Event::Bytes { data: stub() });
    let (b, a) = b.step(Event::Failed { status: Status::new(0x8000_0000_0000_000e) });
    match a {
        Action::Report { status } => assert_eq!(status.code, 0x8000_0000_0000_000e),
        _ => panic!("expected a report"),
    }
    assert_eq!(b.phase, Phase::ReportStatus);
}

#[test]
fn missing_configuration_reports_invalid_parameter() {
    let b = Boot::new(MACHINE_X86_64);
    let (b, _) = b.step(Event::Begin);
    let (_, a) = b.step(Event::Bytes { data: kernel() });
    match a {
        Action::Report { status } => assert_eq!(status.code, 0x8000_0000_0000_0002),
        _ => panic!("expected a report"),
    }
}

#[test]
fn initrd_size_query_gives_exact_length() {
    let l = InitrdLoader::new(vec![1, 2, 3, 4, 5]);
    let mut size: usize = 0;
    let mut empty: [u8; 0] = [];
    let st = l.load_file(&mut size, &mut empty, false);
    assert_eq!(st.code, BUFFER_TOO_SMALL);
    assert_eq!(size, 5);
    let mut small = [0u8; 3];
    let mut size: usize = 3;
    assert_eq!(l.load_file(&mut size, &mut small, true).code, BUFFER_TOO_SMALL);
    assert_eq!(size, 5);
    assert_eq!(small, [0, 0, 0]);
}

#[test]
fn initrd_read_copies_exactly_the_bytes() {
    let l = InitrdLoader::new(vec![1, 2, 3, 4, 5]);
    let mut buf = [9u8; 8];
    let mut size: usize = 8;
    assert_eq!(l.load_file(&mut size, &mut buf, true).code, SUCCESS);
    assert_eq!(size, 5);
    assert_eq!(buf, [1, 2, 3, 4, 5, 9, 9, 9]);
    assert_eq!(l.size(), 5);
}

#[test]
fn initrd_query_after_uninstall_is_not_found() {
    let mut l = InitrdLoader::new(vec![1, 2, 3]);
    assert!(l.installed());
    let back = l.uninstall();
    assert_eq!(back, vec![1, 2, 3]);
    assert!(!l.installed());
    let mut buf = [0u8; 8];
    let mut size: usize = 8;
    assert_eq!(l.load_file(&mut size, &mut buf, true).code, NOT_FOUND);
    assert_eq!(size, 8);
    assert_eq!(buf, [0u8; 8]);
}

#[test]
fn aligned_kernel_is_placed_on_its_alignment() {
    let mut k = kernel();
    put32(&mut k, 0x58 + 32, 0x10000);
    let (b, a, _) = run_to_load(k);
    match a {
        Action::AllocatePages { pages, alignment } => {
            assert_eq!(alignment, 0x10000);
            assert_eq!(pages, 18);
        }
        _ => panic!("expected an allocation"),
    }
    let (b, _) = b.step(Event::Allocated { base: 0x8000_1000 });
    let (_, a) = b.step(Event::Done);
    match a {
        Action::Start { image, .. } => {
            assert_eq!(image.base, 0x8001_0000);
            assert_eq!(image.entry, 0x8001_1004);
        }
        _ => panic!("expected the kernel to be started"),
    }
}

#[test]
fn placement_rounds_up_to_alignment() {
    assert_eq!(place_image(0x8000_1000, 0x10000), 0x8001_0000);
    assert_eq!(place_image(0x8001_0000, 0x10000), 0x8001_0000);
    assert_eq!(place_image(0x8000_1000, 0x1000), 0x8000_1000);
    assert_eq!(place_image(0x8000_1000, 0), 0x8000_1000);
}

#[test]
fn failure_after_start_still_uninstalls() {
    let (b, _, _) = run_to_load(kernel());
    let (b, _) = b.step(Event::Allocated { base: 0x100000 });
    let (b, _) = b.step(Event::Done);
    assert_eq!(b.phase, Phase::Start);
    let (b, a) = b.step(Event::Failed { status: Status::new(0x8000_0000_0000_0001) });
    assert!(matches!(a, Action::UninstallInitrd));
    let (_, a) = b.step(Event::Failed { status: Status::new(0x8000_0000_0000_000e) });
    match a {
        Action::Report { status } => assert_eq!(status.code, 0x8000_0000_0000_000e),
        _ => panic!("expected a report"),
    }
}
