//! The system architectures and systems-on-chip that device firmware runs
//! on: naming, parameter-value lookup, and sniffing an ELF executable's
//! architecture from its header fields.

use crate::bytes::eq_at;
use vstd::prelude::*;

verus! {

/// A system architecture a device may use.
///
/// `Architecture` encodes both a processor instruction set and ABI: a chip
/// could in principle run several of these, but each firmware line is built
/// for exactly one.
#[derive(Debug, Copy, Clone, PartialEq, Eq, Structural)]
#[non_exhaustive]
pub enum Architecture {
    /// AArch64.
    Aarch64,
    /// Arm v5 with Thumb, Enhanced DSP, and Jazelle, little endian, GNU Arm
    /// embedded ABI.
    Armv5tej,
    /// Arm v6, little endian, GNU Arm embedded ABI.
    Armv6,
    /// Arm v7, little endian, GNU Arm embedded ABI.
    Armv7,
    /// Arm v7 with hardware floating point, little endian, GNU Arm embedded
    /// ABI.
    Armv7Hf,
    /// CRIS v0 through v10, chips up to and including ETRAX 100LX and
    /// ARTPEC-2.
    CrisV0,
    /// CRIS v32, as used in ETRAX FS and ARTPEC-3.
    CrisV32,
    /// MIPS 32-bit revision 2, little endian.
    Mips,
}

/// Every known architecture, in declaration order.
pub const ALL_ARCHITECTURES: [Architecture; 8] = [
    Architecture::Aarch64,
    Architecture::Armv5tej,
    Architecture::Armv6,
    Architecture::Armv7,
    Architecture::Armv7Hf,
    Architecture::CrisV0,
    Architecture::CrisV32,
    Architecture::Mips,
];

impl Architecture {
    /// The display name of each architecture.
    pub open spec fn display_name_spec(self) -> Seq<char> {
        match self {
            Architecture::Aarch64 => "AArch64"@,
            Architecture::Armv5tej => "ARMv5TEJ"@,
            Architecture::Armv6 => "ARMv6"@,
            Architecture::Armv7 => "ARMv7"@,
            Architecture::Armv7Hf => "ARMv7-HF"@,
            Architecture::CrisV0 => "CRISv0"@,
            Architecture::CrisV32 => "CRISv32"@,
            Architecture::Mips => "MIPS"@,
        }
    }

    /// List all architectures.
    pub fn all() -> (r: &'static [Architecture])
        ensures
            r@ == ALL_ARCHITECTURES@,
            r@.len() == 8,
    {
        ALL_ARCHITECTURES.as_slice()
    }

    /// The display name of this architecture.
    pub fn display_name(&self) -> (r: &'static str)
        ensures
            r@ == self.display_name_spec(),
    {
        match self {
            Architecture::Aarch64 => "AArch64",
            Architecture::Armv5tej => "ARMv5TEJ",
            Architecture::Armv6 => "ARMv6",
            Architecture::Armv7 => "ARMv7",
            Architecture::Armv7Hf => "ARMv7-HF",
            Architecture::CrisV0 => "CRISv0",
            Architecture::CrisV32 => "CRISv32",
            Architecture::Mips => "MIPS",
        }
    }
}

/// The architecture a `Properties.System.Architecture` parameter value
/// names, as bytes.
pub open spec fn architecture_of_param(b: Seq<u8>) -> Option<Architecture> {
    if b == PARAM_AARCH64@ {
        Some(Architecture::Aarch64)
    } else if b == PARAM_ARMV5TEJL@ {
        Some(Architecture::Armv5tej)
    } else if b == PARAM_ARMV6L@ {
        Some(Architecture::Armv6)
    } else if b == PARAM_ARMV7L@ {
        Some(Architecture::Armv7)
    } else if b == PARAM_ARMV7HF@ {
        Some(Architecture::Armv7Hf)
    } else if b == PARAM_CRISV0@ {
        Some(Architecture::CrisV0)
    } else if b == PARAM_CRISV32@ {
        Some(Architecture::CrisV32)
    } else if b == PARAM_MIPS@ {
        Some(Architecture::Mips)
    } else {
        None
    }
}

pub const PARAM_AARCH64: [u8; 7] = [97, 97, 114, 99, 104, 54, 52];  // "aarch64"

pub const PARAM_ARMV5TEJL: [u8; 9] = [97, 114, 109, 118, 53, 116, 101, 106, 108];  // "armv5tejl"

pub const PARAM_ARMV6L: [u8; 6] = [97, 114, 109, 118, 54, 108];  // "armv6l"

pub const PARAM_ARMV7L: [u8; 6] = [97, 114, 109, 118, 55, 108];  // "armv7l"

pub const PARAM_ARMV7HF: [u8; 7] = [97, 114, 109, 118, 55, 104, 102];  // "armv7hf"

pub const PARAM_CRISV0: [u8; 6] = [99, 114, 105, 115, 118, 48];  // "crisv0"

pub const PARAM_CRISV32: [u8; 7] = [99, 114, 105, 115, 118, 51, 50];  // "crisv32"

pub const PARAM_MIPS: [u8; 4] = [109, 105, 112, 115];  // "mips"

/// Whether `b` equals `tag` in full.
fn bytes_is(b: &[u8], tag: &[u8]) -> (r: bool)
    ensures
        r == (b@ == tag@),
{
    if b.len() != tag.len() {
        return false;
    }
    let r = eq_at(b, 0, tag);
    proof {
        assert(b@.subrange(0, tag@.len() as int) =~= b@);
    }
    r
}

impl Architecture {
    /// The architecture a `Properties.System.Architecture` parameter value
    /// names, if known.
    pub fn from_param(value: &[u8]) -> (r: Option<Architecture>)
        ensures
            r == architecture_of_param(value@),
    {
        if bytes_is(value, PARAM_AARCH64.as_slice()) {
            Some(Architecture::Aarch64)
        } else if bytes_is(value, PARAM_ARMV5TEJL.as_slice()) {
            Some(Architecture::Armv5tej)
        } else if bytes_is(value, PARAM_ARMV6L.as_slice()) {
            Some(Architecture::Armv6)
        } else if bytes_is(value, PARAM_ARMV7L.as_slice()) {
            Some(Architecture::Armv7)
        } else if bytes_is(value, PARAM_ARMV7HF.as_slice()) {
            Some(Architecture::Armv7Hf)
        } else if bytes_is(value, PARAM_CRISV0.as_slice()) {
            Some(Architecture::CrisV0)
        } else if bytes_is(value, PARAM_CRISV32.as_slice()) {
            Some(Architecture::CrisV32)
        } else if bytes_is(value, PARAM_MIPS.as_slice()) {
            Some(Architecture::Mips)
        } else {
            None
        }
    }
}

/// The ELF machine number of AArch64.
pub const EM_AARCH64: u16 = 183;

/// The ELF machine number of Arm.
pub const EM_ARM: u16 = 40;

/// The ELF machine number of CRIS.
pub const EM_CRIS: u16 = 76;

/// The ELF machine number of MIPS.
pub const EM_MIPS: u16 = 8;

/// The `e_ident` data-encoding byte naming little-endian data.
pub const ELFDATA2LSB: u8 = 1;

/// The CRIS `e_flags` variant that may contain v0 through v10 objects.
pub const EF_CRIS_VARIANT_ANY_V0_V10: u32 = 0;

/// The CRIS `e_flags` variant that contains v32 objects.
pub const EF_CRIS_VARIANT_V32: u32 = 2;

/// The CRIS `e_flags` variant compatible with both v10 and v32.
pub const EF_CRIS_VARIANT_COMMON_V10_V32: u32 = 4;

/// The four-bit MIPS architecture field of `e_flags`.
pub const EF_MIPS_ARCH: u32 = 0xf000_0000;

/// The `e_flags` architecture value of MIPS32 revision 2 code.
pub const E_MIPS_ARCH_32R2: u32 = 0x7000_0000;

/// The Arm `e_flags` bit set when the image uses the hard-float ABI.
pub const EF_ARM_ABI_FLOAT_HARD: u32 = 0x400;

/// The ELF header fields that architecture sniffing reads.
#[derive(Debug, Copy, Clone, PartialEq, Eq, Structural)]
pub struct ElfFacts {
    /// The machine number, `e_machine`.
    pub e_machine: u16,
    /// The processor-specific flags, `e_flags`.
    pub e_flags: u32,
    /// The data-encoding byte of `e_ident`.
    pub ei_data: u8,
}

/// The header fields of the ELF image the given bytes hold, when they parse
/// as one; the fields depend on the bytes alone.
pub uninterp spec fn elf_facts_of(bytes: Seq<u8>) -> Option<ElfFacts>;

/// Relies on `goblin::elf::Elf::parse` to read the ELF header of an
/// executable image; the three fields are copied from the parsed header.
#[verifier::external_body]
fn parse_elf_facts(executable: &[u8]) -> (r: Option<ElfFacts>)
    ensures
        r == elf_facts_of(executable@),
{
    match goblin::elf::Elf::parse(executable) {
        Ok(elf) => Some(
            ElfFacts {
                e_machine: elf.header.e_machine,
                e_flags: elf.header.e_flags,
                ei_data: elf.header.e_ident[goblin::elf::header::EI_DATA],
            },
        ),
        Err(_) => None,
    }
}

/// The architecture an ELF header names, by machine number and flags. Of the
/// Arm architectures only the hard-float one is identifiable from the header
/// alone, and every hard-float image is taken as ARMv7-HF.
pub open spec fn classify_elf(f: ElfFacts) -> Option<Architecture> {
    if f.e_machine == EM_AARCH64 {
        Some(Architecture::Aarch64)
    } else if f.e_machine == EM_CRIS {
        if f.e_flags == EF_CRIS_VARIANT_V32 {
            Some(Architecture::CrisV32)
        } else if f.e_flags == EF_CRIS_VARIANT_ANY_V0_V10 || f.e_flags
            == EF_CRIS_VARIANT_COMMON_V10_V32 {
            Some(Architecture::CrisV0)
        } else {
            None
        }
    } else if f.e_machine == EM_MIPS {
        if f.e_flags & EF_MIPS_ARCH == E_MIPS_ARCH_32R2 && f.ei_data == ELFDATA2LSB {
            Some(Architecture::Mips)
        } else {
            None
        }
    } else if f.e_machine == EM_ARM && f.ei_data == ELFDATA2LSB {
        if f.e_flags & EF_ARM_ABI_FLOAT_HARD != 0 {
            Some(Architecture::Armv7Hf)
        } else {
            None
        }
    } else {
        None
    }
}

impl Architecture {
    /// The architecture the given ELF header fields name, if any.
    pub fn from_elf_facts(f: ElfFacts) -> (r: Option<Architecture>)
        ensures
            r == classify_elf(f),
    {
        if f.e_machine == EM_AARCH64 {
            Some(Architecture::Aarch64)
        } else if f.e_machine == EM_CRIS {
            if f.e_flags == EF_CRIS_VARIANT_V32 {
                Some(Architecture::CrisV32)
            } else if f.e_flags == EF_CRIS_VARIANT_ANY_V0_V10 || f.e_flags
                == EF_CRIS_VARIANT_COMMON_V10_V32 {
                Some(Architecture::CrisV0)
            } else {
                None
            }
        } else if f.e_machine == EM_MIPS {
            if f.e_flags & EF_MIPS_ARCH == E_MIPS_ARCH_32R2 && f.ei_data == ELFDATA2LSB {
                Some(Architecture::Mips)
            } else {
                None
            }
        } else if f.e_machine == EM_ARM && f.ei_data == ELFDATA2LSB {
            if f.e_flags & EF_ARM_ABI_FLOAT_HARD != 0 {
                Some(Architecture::Armv7Hf)
            } else {
                None
            }
        } else {
            None
        }
    }

    /// Sniff an ELF executable, determining for which architecture it was
    /// built, as far as the ELF header tells.
    pub fn sniff(executable: &[u8]) -> (r: Option<Architecture>)
        ensures
            r == match elf_facts_of(executable@) {
                Some(f) => classify_elf(f),
                None => None::<Architecture>,
            },
    {
        match parse_elf_facts(executable) {
            Some(f) => Architecture::from_elf_facts(f),
            None => None,
        }
    }
}

/// A system-on-chip a device may be built around.
#[derive(Debug, Copy, Clone, PartialEq, Eq, Structural)]
#[non_exhaustive]
pub enum SOC {
    Artpec1,
    Artpec2,
    Artpec3,
    Artpec4,
    Artpec5,
    Artpec6,
    Artpec7,
    A5S,
    Hi3516cV300,
    Hi3719cV100,
    MX8QP,
    S2,
    S2E,
    S2L,
    S3L,
    S5,
    S5L,
}

/// Every known system-on-chip, in declaration order.
pub const ALL_SOCS: [SOC; 17] = [
    SOC::Artpec1,
    SOC::Artpec2,
    SOC::Artpec3,
    SOC::Artpec4,
    SOC::Artpec5,
    SOC::Artpec6,
    SOC::Artpec7,
    SOC::A5S,
    SOC::Hi3516cV300,
    SOC::Hi3719cV100,
    SOC::MX8QP,
    SOC::S2,
    SOC::S2E,
    SOC::S2L,
    SOC::S3L,
    SOC::S5,
    SOC::S5L,
];

pub const PARAM_ARTPEC5: [u8; 13] = [65, 120, 105, 115, 32, 65, 114, 116, 112, 101, 99, 45, 53];  // "Axis Artpec-5"

impl SOC {
    /// The display name of each system-on-chip.
    pub open spec fn display_name_spec(self) -> Seq<char> {
        match self {
            SOC::Artpec1 => "Axis ARTPEC-1"@,
            SOC::Artpec2 => "Axis ARTPEC-2"@,
            SOC::Artpec3 => "Axis ARTPEC-3"@,
            SOC::Artpec4 => "Axis ARTPEC-4"@,
            SOC::Artpec5 => "Axis ARTPEC-5"@,
            SOC::Artpec6 => "Axis ARTPEC-6"@,
            SOC::Artpec7 => "Axis ARTPEC-7"@,
            SOC::A5S => "Ambarella A5S"@,
            SOC::Hi3516cV300 => "Hi3516C V300"@,
            SOC::Hi3719cV100 => "Hi3719C V100"@,
            SOC::MX8QP => "NXP i.MX 8 QP"@,
            SOC::S2 => "Ambarella S2"@,
            SOC::S2E => "Ambarella S2E"@,
            SOC::S2L => "Ambarella S2L"@,
            SOC::S3L => "Ambarella S3L"@,
            SOC::S5 => "Ambarella S5"@,
            SOC::S5L => "Ambarella S5L"@,
        }
    }

    /// The year each system-on-chip was released.
    pub open spec fn year_spec(self) -> u32 {
        match self {
            SOC::Artpec1 => 1999,
            SOC::Artpec2 => 2003,
            SOC::Artpec3 => 2007,
            SOC::Artpec4 => 2011,
            SOC::Artpec5 => 2013,
            SOC::Artpec6 => 2017,
            SOC::Artpec7 => 2019,
            SOC::A5S => 2010,
            SOC::Hi3516cV300 => 2016,
            SOC::Hi3719cV100 => 2016,
            SOC::MX8QP => 2013,
            SOC::S2 => 2012,
            SOC::S2E => 2012,
            SOC::S2L => 2012,
            SOC::S3L => 2014,
            SOC::S5 => 2016,
            SOC::S5L => 2016,
        }
    }

    /// The architecture most commonly paired with each system-on-chip.
    pub open spec fn architecture_spec(self) -> Architecture {
        match self {
            SOC::Artpec1 => Architecture::CrisV32,
            SOC::Artpec2 => Architecture::CrisV32,
            SOC::Artpec3 => Architecture::CrisV32,
            SOC::Artpec4 => Architecture::Mips,
            SOC::Artpec5 => Architecture::Mips,
            SOC::Artpec6 => Architecture::Armv7Hf,
            SOC::Artpec7 => Architecture::Armv7Hf,
            SOC::A5S => Architecture::Armv6,
            SOC::Hi3516cV300 => Architecture::Armv5tej,
            SOC::Hi3719cV100 => Architecture::Armv7Hf,
            SOC::MX8QP => Architecture::Aarch64,
            SOC::S2 => Architecture::Armv7,
            SOC::S2E => Architecture::Armv7Hf,
            SOC::S2L => Architecture::Armv7Hf,
            SOC::S3L => Architecture::Armv7Hf,
            SOC::S5 => Architecture::Aarch64,
            SOC::S5L => Architecture::Aarch64,
        }
    }

    /// List all systems-on-chip.
    pub fn all() -> (r: &'static [SOC])
        ensures
            r@ == ALL_SOCS@,
            r@.len() == 17,
    {
        ALL_SOCS.as_slice()
    }

    /// The display name of this system-on-chip.
    pub fn display_name(&self) -> (r: &'static str)
        ensures
            r@ == self.display_name_spec(),
    {
        match self {
            SOC::Artpec1 => "Axis ARTPEC-1",
            SOC::Artpec2 => "Axis ARTPEC-2",
            SOC::Artpec3 => "Axis ARTPEC-3",
            SOC::Artpec4 => "Axis ARTPEC-4",
            SOC::Artpec5 => "Axis ARTPEC-5",
            SOC::Artpec6 => "Axis ARTPEC-6",
            SOC::Artpec7 => "Axis ARTPEC-7",
            SOC::A5S => "Ambarella A5S",
            SOC::Hi3516cV300 => "Hi3516C V300",
            SOC::Hi3719cV100 => "Hi3719C V100",
            SOC::MX8QP => "NXP i.MX 8 QP",
            SOC::S2 => "Ambarella S2",
            SOC::S2E => "Ambarella S2E",
            SOC::S2L => "Ambarella S2L",
            SOC::S3L => "Ambarella S3L",
            SOC::S5 => "Ambarella S5",
            SOC::S5L => "Ambarella S5L",
        }
    }

    /// The system-on-chip a `Properties.System.Soc` parameter value names,
    /// if known.
    pub fn from_param(value: &[u8]) -> (r: Option<SOC>)
        ensures
            r == (if value@ == PARAM_ARTPEC5@ {
                Some(SOC::Artpec5)
            } else {
                None::<SOC>
            }),
    {
        if bytes_is(value, PARAM_ARTPEC5.as_slice()) {
            Some(SOC::Artpec5)
        } else {
            None
        }
    }

    /// The year this system-on-chip was released.
    pub fn year(&self) -> (r: u32)
        ensures
            r == self.year_spec(),
    {
        match self {
            SOC::Artpec1 => 1999,
            SOC::Artpec2 => 2003,
            SOC::Artpec3 => 2007,
            SOC::Artpec4 => 2011,
            SOC::Artpec5 => 2013,
            SOC::Artpec6 => 2017,
            SOC::Artpec7 => 2019,
            SOC::A5S => 2010,
            SOC::Hi3516cV300 => 2016,
            SOC::Hi3719cV100 => 2016,
            SOC::MX8QP => 2013,
            SOC::S2 => 2012,
            SOC::S2E => 2012,
            SOC::S2L => 2012,
            SOC::S3L => 2014,
            SOC::S5 => 2016,
            SOC::S5L => 2016,
        }
    }

    /// The architecture most commonly used by this system-on-chip. A chip
    /// can in principle support several; this is the one every firmware line
    /// for the chip has been built with.
    pub fn architecture(&self) -> (r: Architecture)
        ensures
            r == self.architecture_spec(),
    {
        match self {
            SOC::Artpec1 => Architecture::CrisV32,
            SOC::Artpec2 => Architecture::CrisV32,
            SOC::Artpec3 => Architecture::CrisV32,
            SOC::Artpec4 => Architecture::Mips,
            SOC::Artpec5 => Architecture::Mips,
            SOC::Artpec6 => Architecture::Armv7Hf,
            SOC::Artpec7 => Architecture::Armv7Hf,
            SOC::A5S => Architecture::Armv6,
            SOC::Hi3516cV300 => Architecture::Armv5tej,
            SOC::Hi3719cV100 => Architecture::Armv7Hf,
            SOC::MX8QP => Architecture::Aarch64,
            SOC::S2 => Architecture::Armv7,
            SOC::S2E => Architecture::Armv7Hf,
            SOC::S2L => Architecture::Armv7Hf,
            SOC::S3L => Architecture::Armv7Hf,
            SOC::S5 => Architecture::Aarch64,
            SOC::S5L => Architecture::Aarch64,
        }
    }
}

} // verus!
