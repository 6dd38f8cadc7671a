//! The boot sequence as a state machine. Each step takes the outcome of the
//! previous action (an event) and decides the next action; the platform
//! side performs the actions and reports back.
use crate::config::{configuration_of, EmbeddedConfiguration};
use crate::loader::{layout_of, loaded_memory, ImageError, LoadedImage};
use crate::status::{Status, INVALID_PARAMETER, LOAD_ERROR, UNSUPPORTED};
use vstd::prelude::*;

verus! {

/// Where the boot sequence stands.
#[derive(Clone, Copy, Debug, PartialEq, Eq, Structural)]
pub enum Phase {
    Init,
    ExtractConfig,
    ReadKernelFile,
    ReadInitrdFile,
    LoadKernel,
    InstallInitrd,
    Start,
    UninstallInitrd,
    ReportStatus,
}

/// What the platform side is asked to do next.
pub enum Action {
    /// Read the whole file of the stub's own image.
    ReadOwnImage,
    /// Read the whole file at this path of the boot volume.
    ReadFile { path: Vec<u16> },
    /// Reserve this many loader-code pages, aligned as given.
    AllocatePages { pages: u64, alignment: u64 },
    /// Install the load-file interface serving these initrd bytes.
    InstallInitrd { initrd: Vec<u8> },
    /// Place the image at its base and call its entry point with the
    /// command line.
    Start { image: LoadedImage, cmdline: Vec<u16> },
    /// Remove the load-file interface.
    UninstallInitrd,
    /// Stop with this status.
    Report { status: Status },
}

/// The outcome of the last action.
pub enum Event {
    /// The sequence begins.
    Begin,
    /// The file that was asked for, in full.
    Bytes { data: Vec<u8> },
    /// The pages were reserved at this address.
    Allocated { base: u64 },
    /// The interface was installed or removed.
    Done,
    /// The started image returned this status.
    Returned { status: Status },
    /// The action failed with this status.
    Failed { status: Status },
}

/// The state of one boot attempt.
pub struct Boot {
    pub phase: Phase,
    /// COFF machine type of the running platform.
    pub machine: u16,
    pub kernel_filename: Vec<u16>,
    pub initrd_filename: Vec<u16>,
    pub cmdline: Vec<u16>,
    pub kernel: Vec<u8>,
    pub initrd: Vec<u8>,
    pub image: Option<LoadedImage>,
    /// Section alignment the kernel asks for.
    pub alignment: u64,
    /// The status the started image returned.
    pub status: Status,
}

/// Where an image goes in pages reserved at `base`: the first address at or
/// above `base` that is a multiple of `alignment`, where that asks for more
/// than the page alignment the allocator gives anyway.
pub open spec fn placement(base: u64, alignment: u64) -> int {
    if alignment > 4096 {
        let a = alignment as int;
        base + (a - (base as int) % a) % a
    } else {
        base as int
    }
}

/// Extra room to reserve so that an aligned placement still fits.
pub open spec fn alignment_slack(alignment: u64) -> int {
    if alignment > 4096 {
        alignment as int
    } else {
        0
    }
}

/// The aligned placement of an image in pages reserved at `base`.
pub fn place_image(base: u64, alignment: u64) -> (r: u64)
    requires
        base <= u64::MAX - 0x1_0000_0000,
        alignment < 0x1_0000_0000,
    ensures
        r == placement(base, alignment),
        base <= r <= base + alignment_slack(alignment),
        alignment > 4096 ==> r % alignment == 0,
{
    if alignment > 4096 {
        let rem = base % alignment;
        let add = (alignment - rem) % alignment;
        proof {
            let b = base as int;
            let a = alignment as int;
            vstd::arithmetic::div_mod::lemma_fundamental_div_mod(b, a);
            vstd::arithmetic::div_mod::lemma_mod_bound(b, a);
            if rem == 0 {
                vstd::arithmetic::div_mod::lemma_mod_self_0(a);
                assert(add == 0);
            } else {
                vstd::arithmetic::div_mod::lemma_small_mod((a - rem) as nat, a as nat);
                assert(add == a - rem);
                assert(b + add == a * (b / a) + a);
                assert(b + add == a * (b / a + 1)) by (nonlinear_arith)
                    requires
                        b + add == a * (b / a) + a,
                ;
                vstd::arithmetic::div_mod::lemma_mod_multiples_vanish(b / a + 1, 0, a);
            }
        }
        base + add
    } else {
        base
    }
}

/// The status reported for an image error.
pub open spec fn image_error_status(e: ImageError) -> Status {
    if e == ImageError::MachineMismatch {
        Status { code: UNSUPPORTED }
    } else {
        Status { code: LOAD_ERROR }
    }
}

pub open spec fn reports(a: Action, st: Status) -> bool {
    match a {
        Action::Report { status } => status == st,
        _ => false,
    }
}

pub open spec fn reads_file(a: Action, p: Seq<u16>) -> bool {
    match a {
        Action::ReadFile { path } => path@ == p,
        _ => false,
    }
}

pub open spec fn allocates(a: Action, size: u64, align: u64) -> bool {
    match a {
        Action::AllocatePages { pages, alignment } => alignment == align && pages * 4096 >= size
            + alignment_slack(align),
        _ => false,
    }
}

pub open spec fn installs(a: Action, data: Seq<u8>) -> bool {
    match a {
        Action::InstallInitrd { initrd } => initrd@ == data,
        _ => false,
    }
}

pub open spec fn starts(a: Action, img: LoadedImage, line: Seq<u16>) -> bool {
    match a {
        Action::Start { image, cmdline } => image == img && cmdline@ == line,
        _ => false,
    }
}

pub open spec fn holds_image(b: Boot, base: u64, mem: Seq<u8>) -> bool {
    match b.image {
        Some(img) => img.memory@ == mem && img.base == base && img.wf(),
        None => false,
    }
}

impl Boot {
    /// A boot attempt that has not begun, for the platform `machine`.
    pub fn new(machine: u16) -> (r: Boot)
        ensures
            r.phase == Phase::Init,
            r.machine == machine,
    {
        Boot {
            phase: Phase::Init,
            machine,
            kernel_filename: Vec::new(),
            initrd_filename: Vec::new(),
            cmdline: Vec::new(),
            kernel: Vec::new(),
            initrd: Vec::new(),
            image: None,
            alignment: 0,
            status: Status::new(0),
        }
    }

    fn report(b: Boot, status: Status) -> (r: (Boot, Action))
        ensures
            r.0.phase == Phase::ReportStatus,
            r.0.machine == b.machine,
            r.0.status == b.status,
            reports(r.1, status),
    {
        let mut b = b;
        b.phase = Phase::ReportStatus;
        (b, Action::Report { status })
    }

    /// Takes one step: the outcome `ev` of the last action gives the next
    /// phase and action. Any failure reported by the platform ends the
    /// attempt with that status, except once the image was started: then
    /// the interface is removed first, whatever the outcome. An event that
    /// does not fit the phase ends the attempt with invalid-parameter.
    pub fn step(self, ev: Event) -> (r: (Boot, Action))
        ensures
            r.0.machine == self.machine,
            // a failed action ends the attempt, reporting its status
            self.phase != Phase::ReportStatus && self.phase != Phase::Start ==> (
            ev matches Event::Failed { status: st } ==> (r.0.phase == Phase::ReportStatus
                && reports(r.1, st))),
            self.phase == Phase::ReportStatus ==> r.0.phase == Phase::ReportStatus && reports(
                r.1,
                self.status,
            ),
            self.phase == Phase::Init ==> (!(ev is Failed) ==> (r.0.phase == Phase::ExtractConfig
                && r.1 is ReadOwnImage)),
            self.phase == Phase::ExtractConfig ==> (ev matches Event::Bytes { data } ==> (
            match configuration_of(data@) {
                Err(e) => r.0.phase == Phase::ReportStatus && reports(r.1, e),
                Ok(cfg) => {
                    &&& r.0.phase == Phase::ReadKernelFile
                    &&& r.0.kernel_filename@ == cfg.0
                    &&& r.0.initrd_filename@ == cfg.1
                    &&& r.0.cmdline@ == cfg.2
                    &&& reads_file(r.1, cfg.0)
                },
            })),
            self.phase == Phase::ReadKernelFile ==> (ev matches Event::Bytes { data } ==> (
            r.0.phase == Phase::ReadInitrdFile && r.0.kernel@ == data@ && reads_file(
                r.1,
                self.initrd_filename@,
            ))),
            self.phase == Phase::ReadInitrdFile ==> (ev matches Event::Bytes { data } ==> (
            match layout_of(self.kernel@, self.machine) {
                Err(e) => r.0.phase == Phase::ReportStatus && reports(r.1, image_error_status(e)),
                Ok(l) => {
                    &&& r.0.phase == Phase::LoadKernel
                    &&& r.0.initrd@ == data@
                    &&& r.0.kernel@ == self.kernel@
                    &&& r.0.alignment == l.section_alignment
                    &&& allocates(r.1, l.size_of_image, l.section_alignment)
                },
            })),
            self.phase == Phase::LoadKernel ==> (ev matches Event::Allocated { base } ==> (
            if base > u64::MAX - 0x2_0000_0000 || self.alignment >= 0x1_0000_0000 {
                r.0.phase == Phase::ReportStatus && reports(r.1, Status { code: LOAD_ERROR })
            } else {
                match loaded_memory(self.kernel@, self.machine, placement(base, self.alignment) as u64) {
                    Err(e) => r.0.phase == Phase::ReportStatus && reports(
                        r.1,
                        image_error_status(e),
                    ),
                    Ok(m) => {
                        &&& r.0.phase == Phase::InstallInitrd
                        &&& installs(r.1, self.initrd@)
                        &&& holds_image(r.0, placement(base, self.alignment) as u64, m)
                    },
                }
            })),
            self.phase == Phase::InstallInitrd ==> (ev matches Event::Done ==> (
            self.image matches Some(img) ==> (r.0.phase == Phase::Start && starts(
                r.1,
                img,
                self.cmdline@,
            )))),
            self.phase == Phase::Start ==> r.0.phase == Phase::UninstallInitrd && r.1
                is UninstallInitrd && r.0.status == match ev {
                Event::Returned { status } => status,
                Event::Failed { status } => status,
                _ => Status { code: INVALID_PARAMETER },
            },
            self.phase == Phase::UninstallInitrd ==> (ev matches Event::Done ==> (r.0.phase
                == Phase::ReportStatus && reports(r.1, self.status))),
            // the image is started only from the install phase, the
            // interface is installed only from the load phase and removed
            // only after the started image returned
            r.1 is Start ==> self.phase == Phase::InstallInitrd && r.0.phase == Phase::Start,
            r.1 is InstallInitrd ==> self.phase == Phase::LoadKernel,
            r.1 is UninstallInitrd ==> self.phase == Phase::Start,
            (r.1 is Report) <==> r.0.phase == Phase::ReportStatus,
    {
        let mut s = self;
        if s.phase == Phase::ReportStatus {
            let st = s.status;
            return Self::report(s, st);
        }
        if let Event::Failed { status } = ev {
            if s.phase != Phase::Start {
                return Self::report(s, status);
            }
        }
        match s.phase {
            Phase::Init => {
                s.phase = Phase::ExtractConfig;
                (s, Action::ReadOwnImage)
            },
            Phase::ExtractConfig => match ev {
                Event::Bytes { data } => match EmbeddedConfiguration::new(data.as_slice()) {
                    Err(e) => Self::report(s, e),
                    Ok(c) => {
                        let path = c.kernel_filename.clone();
                        s.kernel_filename = c.kernel_filename;
                        s.initrd_filename = c.initrd_filename;
                        s.cmdline = c.cmdline;
                        s.phase = Phase::ReadKernelFile;
                        (s, Action::ReadFile { path })
                    },
                },
                _ => Self::report(s, Status::new(INVALID_PARAMETER)),
            },
            Phase::ReadKernelFile => match ev {
                Event::Bytes { data } => {
                    s.kernel = data;
                    s.phase = Phase::ReadInitrdFile;
                    let path = s.initrd_filename.clone();
                    (s, Action::ReadFile { path })
                },
                _ => Self::report(s, Status::new(INVALID_PARAMETER)),
            },
            Phase::ReadInitrdFile => match ev {
                Event::Bytes { data } => match crate::loader::parse_image(
                    s.kernel.as_slice(),
                    s.machine,
                ) {
                    Err(e) => Self::report(s, e.status()),
                    Ok(l) => {
                        proof {
                            crate::loader::lemma_layout_bounds(s.kernel@, s.machine);
                        }
                        s.initrd = data;
                        s.phase = Phase::LoadKernel;
                        s.alignment = l.section_alignment;
                        let slack: u64 = if l.section_alignment > 4096 {
                            l.section_alignment
                        } else {
                            0
                        };
                        let pages = (l.size_of_image + slack + 4095) / 4096;
                        proof {
                            let x = l.size_of_image + slack + 4095;
                            vstd::arithmetic::div_mod::lemma_fundamental_div_mod(x as int, 4096);
                            vstd::arithmetic::div_mod::lemma_mod_bound(x as int, 4096);
                        }
                        (s, Action::AllocatePages { pages, alignment: l.section_alignment })
                    },
                },
                _ => Self::report(s, Status::new(INVALID_PARAMETER)),
            },
            Phase::LoadKernel => match ev {
                Event::Allocated { base } => {
                    if base > u64::MAX - 0x2_0000_0000 || s.alignment >= 0x1_0000_0000 {
                        return Self::report(s, Status::new(LOAD_ERROR));
                    }
                    let place = place_image(base, s.alignment);
                    match LoadedImage::load(s.kernel.as_slice(), s.machine, place) {
                        Err(e) => Self::report(s, e.status()),
                        Ok(img) => {
                            s.image = Some(img);
                            s.phase = Phase::InstallInitrd;
                            let mut initrd: Vec<u8> = Vec::new();
                            std::mem::swap(&mut initrd, &mut s.initrd);
                            (s, Action::InstallInitrd { initrd })
                        },
                    }
                },
                _ => Self::report(s, Status::new(INVALID_PARAMETER)),
            },
            Phase::InstallInitrd => match ev {
                Event::Done => {
                    let img = s.image;
                    s.image = None;
                    match img {
                        Some(image) => {
                            s.phase = Phase::Start;
                            let cmdline = s.cmdline.clone();
                            (s, Action::Start { image, cmdline })
                        },
                        None => Self::report(s, Status::new(INVALID_PARAMETER)),
                    }
                },
                _ => Self::report(s, Status::new(INVALID_PARAMETER)),
            },
            Phase::Start => {
                // the image may have used the interface: remove it before
                // anything is reported
                s.status = match ev {
                    Event::Returned { status } => status,
                    Event::Failed { status } => status,
                    _ => Status::new(INVALID_PARAMETER),
                };
                s.phase = Phase::UninstallInitrd;
                (s, Action::UninstallInitrd)
            },
            Phase::UninstallInitrd => match ev {
                Event::Done => {
                    let st = s.status;
                    Self::report(s, st)
                },
                _ => Self::report(s, Status::new(INVALID_PARAMETER)),
            },
            Phase::ReportStatus => {
                let st = s.status;
                Self::report(s, st)
            },
        }
    }
}

} // verus!
