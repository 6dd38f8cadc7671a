//! The configuration embedded in the stub's own image: three sections that
//! hold null-terminated UTF-16 text.
use crate::pe::{pe_section, section_content};
use crate::status::{Status, INVALID_PARAMETER};
use vstd::prelude::*;

verus! {

/// The little-endian 16-bit code units of `b`; a trailing odd byte is not
/// part of any unit.
pub open spec fn code_units(b: Seq<u8>) -> Seq<u16> {
    Seq::new(b.len() / 2, |i: int| (b[2 * i] as int + 256 * (b[2 * i + 1] as int)) as u16)
}

pub open spec fn is_high_surrogate(u: u16) -> bool {
    0xd800 <= u <= 0xdbff
}

pub open spec fn is_low_surrogate(u: u16) -> bool {
    0xdc00 <= u <= 0xdfff
}

/// The units of `u` from `i` on are well-formed UTF-16: every high surrogate
/// is followed by a low one, and no low surrogate stands alone.
pub open spec fn well_formed_from(u: Seq<u16>, i: int) -> bool
    decreases u.len() - i,
{
    if i < 0 || i >= u.len() {
        true
    } else if is_low_surrogate(u[i]) {
        false
    } else if is_high_surrogate(u[i]) {
        i + 1 < u.len() && is_low_surrogate(u[i + 1]) && well_formed_from(u, i + 2)
    } else {
        well_formed_from(u, i + 1)
    }
}

/// Index of the first zero unit at or after `i`.
pub open spec fn first_nul_from(u: Seq<u16>, i: int) -> Option<int>
    decreases u.len() - i,
{
    if i < 0 || i >= u.len() {
        None
    } else if u[i] == 0 {
        Some(i)
    } else {
        first_nul_from(u, i + 1)
    }
}

/// The text of a section: the code units before the first zero unit, when
/// there is one and those units are well-formed UTF-16.
pub open spec fn section_text(b: Seq<u8>) -> Option<Seq<u16>> {
    let u = code_units(b);
    match first_nul_from(u, 0) {
        None => None,
        Some(k) => if well_formed_from(u.take(k), 0) {
            Some(u.take(k))
        } else {
            None
        },
    }
}

/// The text of the section `name` of `image`, or invalid-parameter.
pub open spec fn extracted(image: Seq<u8>, name: Seq<u8>) -> Result<Seq<u16>, Status> {
    match section_content(image, name) {
        None => Err(Status { code: INVALID_PARAMETER }),
        Some(b) => match section_text(b) {
            None => Err(Status { code: INVALID_PARAMETER }),
            Some(t) => Ok(t),
        },
    }
}

pub open spec fn kernel_section() -> Seq<u8> {
    seq![0x2eu8, 0x6b, 0x65, 0x72, 0x6e, 0x65, 0x6c, 0x70]
}

pub open spec fn initrd_section() -> Seq<u8> {
    seq![0x2eu8, 0x69, 0x6e, 0x69, 0x74, 0x72, 0x64, 0x70]
}

pub open spec fn cmdline_section() -> Seq<u8> {
    seq![0x2eu8, 0x63, 0x6d, 0x64, 0x6c, 0x69, 0x6e, 0x65]
}

/// `.kernelp`: the path of the kernel on the boot volume.
pub fn kernel_section_name() -> (r: Vec<u8>)
    ensures
        r@ == kernel_section(),
{
    let r = vec![0x2eu8, 0x6b, 0x65, 0x72, 0x6e, 0x65, 0x6c, 0x70];
    assert(r@ =~= kernel_section());
    r
}

/// `.initrdp`: the path of the initrd on the boot volume.
pub fn initrd_section_name() -> (r: Vec<u8>)
    ensures
        r@ == initrd_section(),
{
    let r = vec![0x2eu8, 0x69, 0x6e, 0x69, 0x74, 0x72, 0x64, 0x70];
    assert(r@ =~= initrd_section());
    r
}

/// `.cmdline`: the kernel command line.
pub fn cmdline_section_name() -> (r: Vec<u8>)
    ensures
        r@ == cmdline_section(),
{
    let r = vec![0x2eu8, 0x63, 0x6d, 0x64, 0x6c, 0x69, 0x6e, 0x65];
    assert(r@ =~= cmdline_section());
    r
}

/// Decodes null-terminated UTF-16 text; none where there is no terminator or
/// the units before it are not well-formed.
pub fn decode_text(b: &[u8]) -> (r: Option<Vec<u16>>)
    ensures
        r matches Some(t) ==> section_text(b@) == Some(t@),
        r is None ==> section_text(b@) is None,
{
    let len = b.len();
    let ghost u = code_units(b@);
    let n = len / 2;
    let mut units: Vec<u16> = Vec::new();
    let mut i: usize = 0;
    let mut found = false;
    while i < n && !found
        invariant
            len == b@.len(),
            n == len / 2,
            u == code_units(b@),
            i <= n,
            units@ == u.take(i as int),
            !found ==> first_nul_from(u, 0) == first_nul_from(u, i as int),
            found ==> i < n && first_nul_from(u, 0) == Some(i as int),
        decreases n - i + (if found { 0int } else { 1 }),
    {
        proof {
            assert(first_nul_from(u, i as int) == if u[i as int] == 0 {
                Some(i as int)
            } else {
                first_nul_from(u, i + 1)
            });
        }
        let c = (b[2 * i] as u16) + 256 * (b[2 * i + 1] as u16);
        assert(c == u[i as int]);
        if c == 0 {
            found = true;
        } else {
            units.push(c);
            assert(units@ =~= u.take(i + 1));
            i = i + 1;
        }
    }
    if !found {
        assert(first_nul_from(u, i as int) is None);
        return None;
    }
    let k = i;
    let mut j: usize = 0;
    while j < k
        invariant
            u == code_units(b@),
            first_nul_from(u, 0) == Some(k as int),
            units@ == u.take(k as int),
            units@.len() == k,
            j <= k + 1,
            well_formed_from(units@, 0) == well_formed_from(units@, j as int),
        decreases k - j,
    {
        let c = units[j];
        if 0xdc00 <= c && c <= 0xdfff {
            return None;
        } else if 0xd800 <= c && c <= 0xdbff {
            if j + 1 >= k {
                return None;
            }
            let d = units[j + 1];
            if !(0xdc00 <= d && d <= 0xdfff) {
                return None;
            }
            j = j + 2;
        } else {
            j = j + 1;
        }
    }
    Some(units)
}

/// Reads the section `section` of `file_data` as null-terminated UTF-16
/// text; invalid-parameter where the section is missing or not such text.
pub fn extract_string(file_data: &[u8], section: &[u8]) -> (r: Result<Vec<u16>, Status>)
    ensures
        r matches Ok(t) ==> extracted(file_data@, section@) == Ok::<Seq<u16>, Status>(t@),
        r matches Err(e) ==> extracted(file_data@, section@) == Err::<Seq<u16>, Status>(e),
{
    match pe_section(file_data, section) {
        None => Err(Status::new(INVALID_PARAMETER)),
        Some(bytes) => match decode_text(bytes.as_slice()) {
            None => Err(Status::new(INVALID_PARAMETER)),
            Some(t) => Ok(t),
        },
    }
}

/// The configuration embedded at build time in the stub's own image.
pub struct EmbeddedConfiguration {
    /// Path of the kernel, relative to the root of the boot volume.
    pub kernel_filename: Vec<u16>,
    /// Path of the initrd, relative to the root of the boot volume.
    pub initrd_filename: Vec<u16>,
    /// The kernel command line.
    pub cmdline: Vec<u16>,
}

/// The configuration that `image` holds: the three texts when all three
/// sections are present and decode, else the first failure in the order
/// kernel, initrd, command line.
pub open spec fn configuration_of(image: Seq<u8>) -> Result<(Seq<u16>, Seq<u16>, Seq<u16>), Status> {
    match extracted(image, kernel_section()) {
        Err(e) => Err(e),
        Ok(k) => match extracted(image, initrd_section()) {
            Err(e) => Err(e),
            Ok(i) => match extracted(image, cmdline_section()) {
                Err(e) => Err(e),
                Ok(c) => Ok((k, i, c)),
            },
        },
    }
}

impl EmbeddedConfiguration {
    pub open spec fn view(&self) -> (Seq<u16>, Seq<u16>, Seq<u16>) {
        (self.kernel_filename@, self.initrd_filename@, self.cmdline@)
    }

    /// Extracts the configuration from the bytes of the stub's own image.
    pub fn new(file_data: &[u8]) -> (r: Result<Self, Status>)
        ensures
            r matches Ok(c) ==> configuration_of(file_data@) == Ok::<
                (Seq<u16>, Seq<u16>, Seq<u16>),
                Status,
            >(c.view()),
            r matches Err(e) ==> configuration_of(file_data@) == Err::<
                (Seq<u16>, Seq<u16>, Seq<u16>),
                Status,
            >(e),
    {
        let kernel_filename = extract_string(file_data, kernel_section_name().as_slice())?;
        let initrd_filename = extract_string(file_data, initrd_section_name().as_slice())?;
        let cmdline = extract_string(file_data, cmdline_section_name().as_slice())?;
        Ok(EmbeddedConfiguration { kernel_filename, initrd_filename, cmdline })
    }
}

/// Extraction looks at nothing but the content of the three sections: two
/// images whose sections of those names hold the same bytes, wherever and in
/// whatever order they stand, yield the same configuration.
pub proof fn lemma_configuration_depends_on_sections_only(a: Seq<u8>, b: Seq<u8>)
    requires
        section_content(a, kernel_section()) == section_content(b, kernel_section()),
        section_content(a, initrd_section()) == section_content(b, initrd_section()),
        section_content(a, cmdline_section()) == section_content(b, cmdline_section()),
    ensures
        configuration_of(a) == configuration_of(b),
{
}

/// Extraction fails with invalid-parameter whenever one of the three
/// sections is missing, and whenever one of them does not hold
/// null-terminated well-formed UTF-16.
pub proof fn lemma_configuration_failure(image: Seq<u8>, name: Seq<u8>)
    requires
        name == kernel_section() || name == initrd_section() || name == cmdline_section(),
        section_content(image, name) is None || section_text(section_content(image, name).unwrap()) is None,
    ensures
        configuration_of(image) == Err::<(Seq<u16>, Seq<u16>, Seq<u16>), Status>(
            Status { code: INVALID_PARAMETER },
        ),
{
}

} // verus!
