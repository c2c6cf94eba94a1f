//! The ELF identification bytes (`e_ident`) and the primary header.

use crate::elf::{read_le_u16, read_le_u32, read_le_u64, spec_le, ElfError};
use vstd::prelude::*;

verus! {

/// The class of the object file (`e_ident[EI_CLASS]`).
#[derive(Clone, Copy, PartialEq, Eq, Structural, Debug)]
pub enum Class {
    Bits32,
    Bits64,
}

/// The class a byte decodes to, if any.
pub open spec fn spec_class(b: u8) -> Option<Class> {
    if b == 1 {
        Some(Class::Bits32)
    } else if b == 2 {
        Some(Class::Bits64)
    } else {
        None
    }
}

/// The endianness of the object file (`e_ident[EI_DATA]`).
#[derive(Clone, Copy, PartialEq, Eq, Structural, Debug)]
pub enum Data {
    LittleEndian,
    BigEndian,
}

/// The endianness a byte decodes to, if any.
pub open spec fn spec_data(b: u8) -> Option<Data> {
    if b == 1 {
        Some(Data::LittleEndian)
    } else if b == 2 {
        Some(Data::BigEndian)
    } else {
        None
    }
}

/// The version of the ELF specification (`e_ident[EI_VERSION]`):
/// no version recorded (`EV_NONE`) or the current one (`EV_CURRENT`).
#[derive(Clone, Copy, PartialEq, Eq, Structural, Debug)]
pub enum Version {
    Unversioned,
    Current,
}

/// The version a byte decodes to, if any.
pub open spec fn spec_version(b: u8) -> Option<Version> {
    if b == 0 {
        Some(Version::Unversioned)
    } else if b == 1 {
        Some(Version::Current)
    } else {
        None
    }
}

/// The target OS ABI (`e_ident[EI_OSABI]`).
#[derive(Clone, Copy, PartialEq, Eq, Structural, Debug)]
pub enum OsAbi {
    SystemV,
    HpUx,
    NetBsd,
    Linux,
    GnuHurd,
    Solaris,
    Aix,
    Irix,
    FreeBsd,
    Tru64,
    NovellModesto,
    OpenBsd,
    OpenVms,
    NonStopKernel,
    Aros,
    FenixOs,
    NuxiCloudAbi,
    OpenVos,
}

/// The OS ABI a byte decodes to, if any.
pub open spec fn spec_os_abi(b: u8) -> Option<OsAbi> {
    match b {
        0x0 => Some(OsAbi::SystemV),
        0x1 => Some(OsAbi::HpUx),
        0x2 => Some(OsAbi::NetBsd),
        0x3 => Some(OsAbi::Linux),
        0x4 => Some(OsAbi::GnuHurd),
        0x6 => Some(OsAbi::Solaris),
        0x7 => Some(OsAbi::Aix),
        0x8 => Some(OsAbi::Irix),
        0x9 => Some(OsAbi::FreeBsd),
        0xA => Some(OsAbi::Tru64),
        0xB => Some(OsAbi::NovellModesto),
        0xC => Some(OsAbi::OpenBsd),
        0xD => Some(OsAbi::OpenVms),
        0xE => Some(OsAbi::NonStopKernel),
        0xF => Some(OsAbi::Aros),
        0x10 => Some(OsAbi::FenixOs),
        0x11 => Some(OsAbi::NuxiCloudAbi),
        0x12 => Some(OsAbi::OpenVos),
        _ => None,
    }
}

/// The type of object (`e_type`).
#[derive(Clone, Copy, PartialEq, Eq, Structural, Debug)]
pub enum ObjectType {
    /// Unknown (`ET_NONE`).
    Unknown,
    /// Relocatable file (`ET_REL`).
    Relocatable,
    /// Executable file (`ET_EXEC`).
    Executable,
    /// Shared object (`ET_DYN`).
    SharedObject,
    /// Core file (`ET_CORE`).
    Core,
}

/// The object type a 16-bit field decodes to, if any.
pub open spec fn spec_object_type(v: u16) -> Option<ObjectType> {
    match v {
        0 => Some(ObjectType::Unknown),
        1 => Some(ObjectType::Relocatable),
        2 => Some(ObjectType::Executable),
        3 => Some(ObjectType::SharedObject),
        4 => Some(ObjectType::Core),
        _ => None,
    }
}

/// The target instruction set architecture (`e_machine`), the variants the
/// kernel cares to name.
#[derive(Clone, Copy, PartialEq, Eq, Structural, Debug)]
pub enum Machine {
    Unspecified,
    X86,
    Mips,
    PowerPc,
    PowerPc64,
    Aarch32,
    X86_64,
    Aarch64,
    RiscV,
}

/// The machine a 16-bit field decodes to, if any.
pub open spec fn spec_machine(v: u16) -> Option<Machine> {
    match v {
        0x0 => Some(Machine::Unspecified),
        0x3 => Some(Machine::X86),
        0x8 => Some(Machine::Mips),
        0x14 => Some(Machine::PowerPc),
        0x15 => Some(Machine::PowerPc64),
        0x28 => Some(Machine::Aarch32),
        0x3E => Some(Machine::X86_64),
        0xB7 => Some(Machine::Aarch64),
        0xF3 => Some(Machine::RiscV),
        _ => None,
    }
}

/// The initial section of an ELF header (`e_ident`), 16 bytes.
#[derive(Clone, Copy, PartialEq, Eq, Structural, Debug)]
pub struct IdentifierHeader {
    pub class: Class,
    pub data: Data,
    pub version: Version,
    pub os_abi: OsAbi,
    pub abi_version: u8,
}

/// Length in bytes of the identification section.
pub const IDENTIFIER_LEN: usize = 16;

/// Whether the image opens with the four ELF magic bytes.
pub open spec fn spec_has_magic(s: Seq<u8>) -> bool {
    s.len() >= 4 && s[0] == 0x7f && s[1] == 0x45 && s[2] == 0x4c && s[3] == 0x46
}

impl IdentifierHeader {
    /// Decode the identification bytes at the head of the image: the magic,
    /// the class, the endianness, the version and the OS ABI, each rejected
    /// exactly when its byte is outside its defined set.
    pub fn parse(bytes: &[u8]) -> (r: Result<IdentifierHeader, ElfError>)
        ensures
            bytes@.len() < IDENTIFIER_LEN ==> r == Err::<IdentifierHeader, ElfError>(
                ElfError::TooShort,
            ),
            bytes@.len() >= IDENTIFIER_LEN && !spec_has_magic(bytes@) ==> r == Err::<
                IdentifierHeader,
                ElfError,
            >(ElfError::BadMagic),
            bytes@.len() >= IDENTIFIER_LEN && spec_has_magic(bytes@) ==> match r {
                Ok(h) => {
                    &&& spec_class(bytes@[4]) == Some(h.class)
                    &&& spec_data(bytes@[5]) == Some(h.data)
                    &&& spec_version(bytes@[6]) == Some(h.version)
                    &&& spec_os_abi(bytes@[7]) == Some(h.os_abi)
                    &&& h.abi_version == bytes@[8]
                },
                Err(e) => e == ElfError::BadField && (spec_class(bytes@[4]) is None || spec_data(
                    bytes@[5],
                ) is None || spec_version(bytes@[6]) is None || spec_os_abi(bytes@[7]) is None),
            },
    {
        if bytes.len() < IDENTIFIER_LEN {
            return Err(ElfError::TooShort);
        }
        if !(bytes[0] == 0x7f && bytes[1] == 0x45 && bytes[2] == 0x4c && bytes[3] == 0x46) {
            return Err(ElfError::BadMagic);
        }
        let class = match bytes[4] {
            1u8 => Class::Bits32,
            2u8 => Class::Bits64,
            _ => {
                return Err(ElfError::BadField);
            },
        };
        let data = match bytes[5] {
            1u8 => Data::LittleEndian,
            2u8 => Data::BigEndian,
            _ => {
                return Err(ElfError::BadField);
            },
        };
        let version = match bytes[6] {
            0u8 => Version::Unversioned,
            1u8 => Version::Current,
            _ => {
                return Err(ElfError::BadField);
            },
        };
        let os_abi = match bytes[7] {
            0x0u8 => OsAbi::SystemV,
            0x1u8 => OsAbi::HpUx,
            0x2u8 => OsAbi::NetBsd,
            0x3u8 => OsAbi::Linux,
            0x4u8 => OsAbi::GnuHurd,
            0x6u8 => OsAbi::Solaris,
            0x7u8 => OsAbi::Aix,
            0x8u8 => OsAbi::Irix,
            0x9u8 => OsAbi::FreeBsd,
            0xAu8 => OsAbi::Tru64,
            0xBu8 => OsAbi::NovellModesto,
            0xCu8 => OsAbi::OpenBsd,
            0xDu8 => OsAbi::OpenVms,
            0xEu8 => OsAbi::NonStopKernel,
            0xFu8 => OsAbi::Aros,
            0x10u8 => OsAbi::FenixOs,
            0x11u8 => OsAbi::NuxiCloudAbi,
            0x12u8 => OsAbi::OpenVos,
            _ => {
                return Err(ElfError::BadField);
            },
        };
        Ok(IdentifierHeader { class, data, version, os_abi, abi_version: bytes[8] })
    }
}

/// The main ELF header, without the identification section; the fields whose
/// width depends on the class are carried for the class that was parsed.
#[derive(Clone, Copy, PartialEq, Eq, Structural, Debug)]
pub struct PrimaryHeader {
    pub object_type: ObjectType,
    pub machine: Machine,
    pub version: u32,
    pub entry_point_64: Option<u64>,
    pub program_header_start_64: Option<u64>,
    pub section_header_start_64: Option<u64>,
    pub flags: u32,
    pub header_size: u16,
    pub program_header_entry_size: u16,
    pub program_header_entry_count: u16,
    pub section_header_entry_size: u16,
    pub section_header_entry_count: u16,
    pub section_header_string_table_index: u16,
}

/// Byte length of the primary header of a 64-bit little-endian image,
/// starting right after the identification section.
pub const PRIMARY_64_LEN: usize = 48;

impl PrimaryHeader {
    /// Decode the primary header of a 64-bit little-endian image: the bytes
    /// starting at `IDENTIFIER_LEN`.  Rejected exactly when the image is too
    /// short or the object type or machine field holds an undefined value.
    pub fn parse_64_le(bytes: &[u8]) -> (r: Result<PrimaryHeader, ElfError>)
        ensures
            bytes@.len() < IDENTIFIER_LEN + PRIMARY_64_LEN ==> r == Err::<PrimaryHeader, ElfError>(
                ElfError::TooShort,
            ),
            bytes@.len() >= IDENTIFIER_LEN + PRIMARY_64_LEN ==> match r {
                Ok(h) => {
                    &&& spec_object_type(spec_le(bytes@, 16, 2) as u16) == Some(h.object_type)
                    &&& spec_machine(spec_le(bytes@, 18, 2) as u16) == Some(h.machine)
                    &&& h.version == spec_le(bytes@, 20, 4)
                    &&& h.entry_point_64 == Some(spec_le(bytes@, 24, 8) as u64)
                    &&& h.program_header_start_64 == Some(spec_le(bytes@, 32, 8) as u64)
                    &&& h.section_header_start_64 == Some(spec_le(bytes@, 40, 8) as u64)
                    &&& h.flags == spec_le(bytes@, 48, 4)
                    &&& h.header_size == spec_le(bytes@, 52, 2)
                    &&& h.program_header_entry_size == spec_le(bytes@, 54, 2)
                    &&& h.program_header_entry_count == spec_le(bytes@, 56, 2)
                    &&& h.section_header_entry_size == spec_le(bytes@, 58, 2)
                    &&& h.section_header_entry_count == spec_le(bytes@, 60, 2)
                    &&& h.section_header_string_table_index == spec_le(bytes@, 62, 2)
                },
                Err(e) => e == ElfError::BadField && (spec_object_type(
                    spec_le(bytes@, 16, 2) as u16,
                ) is None || spec_machine(spec_le(bytes@, 18, 2) as u16) is None),
            },
    {
        if bytes.len() < IDENTIFIER_LEN + PRIMARY_64_LEN {
            return Err(ElfError::TooShort);
        }
        let raw_type = read_le_u16(bytes, 16);
        let object_type = match raw_type {
            0u16 => ObjectType::Unknown,
            1u16 => ObjectType::Relocatable,
            2u16 => ObjectType::Executable,
            3u16 => ObjectType::SharedObject,
            4u16 => ObjectType::Core,
            _ => {
                return Err(ElfError::BadField);
            },
        };
        let raw_machine = read_le_u16(bytes, 18);
        let machine = match raw_machine {
            0x0u16 => Machine::Unspecified,
            0x3u16 => Machine::X86,
            0x8u16 => Machine::Mips,
            0x14u16 => Machine::PowerPc,
            0x15u16 => Machine::PowerPc64,
            0x28u16 => Machine::Aarch32,
            0x3Eu16 => Machine::X86_64,
            0xB7u16 => Machine::Aarch64,
            0xF3u16 => Machine::RiscV,
            _ => {
                return Err(ElfError::BadField);
            },
        };
        Ok(
            PrimaryHeader {
                object_type,
                machine,
                version: read_le_u32(bytes, 20),
                entry_point_64: Some(read_le_u64(bytes, 24)),
                program_header_start_64: Some(read_le_u64(bytes, 32)),
                section_header_start_64: Some(read_le_u64(bytes, 40)),
                flags: read_le_u32(bytes, 48),
                header_size: read_le_u16(bytes, 52),
                program_header_entry_size: read_le_u16(bytes, 54),
                program_header_entry_count: read_le_u16(bytes, 56),
                section_header_entry_size: read_le_u16(bytes, 58),
                section_header_entry_count: read_le_u16(bytes, 60),
                section_header_string_table_index: read_le_u16(bytes, 62),
            },
        )
    }
}

/// Whether an image's leading bytes decode as the headers of a 64-bit
/// little-endian object this kernel accepts: long enough, the magic in
/// place, every identification byte and the object type and machine fields
/// inside their defined sets.
pub open spec fn spec_header_ok(s: Seq<u8>) -> bool {
    &&& s.len() >= IDENTIFIER_LEN + PRIMARY_64_LEN
    &&& spec_has_magic(s)
    &&& spec_class(s[4]) == Some(Class::Bits64)
    &&& spec_data(s[5]) == Some(Data::LittleEndian)
    &&& spec_version(s[6]) is Some
    &&& spec_os_abi(s[7]) is Some
    &&& spec_object_type(spec_le(s, 16, 2) as u16) is Some
    &&& spec_machine(spec_le(s, 18, 2) as u16) is Some
}

/// The identification section and the primary header together.
#[derive(Clone, Copy, PartialEq, Eq, Structural, Debug)]
pub struct Header {
    pub identifier: IdentifierHeader,
    pub primary: PrimaryHeader,
}

impl Header {
    /// The endianness the identification section declares.
    pub fn endianness(&self) -> (r: Data)
        ensures
            r == self.identifier.data,
    {
        self.identifier.data
    }

    /// Decode the identification section and, for a 64-bit little-endian
    /// image, the primary header.  Images of another class or endianness
    /// are rejected as such.
    pub fn parse(bytes: &[u8]) -> (r: Result<Header, ElfError>)
        ensures
            r is Err <==> !spec_header_ok(bytes@),
            r matches Ok(h) ==> h.identifier.class == Class::Bits64 && h.identifier.data
                == Data::LittleEndian && bytes@.len() >= IDENTIFIER_LEN + PRIMARY_64_LEN
                && spec_has_magic(bytes@) && h.primary.entry_point_64 == Some(
                spec_le(bytes@, 24, 8) as u64,
            ) && h.primary.program_header_start_64 == Some(spec_le(bytes@, 32, 8) as u64)
                && h.primary.program_header_entry_count == spec_le(bytes@, 56, 2),
    {
        let identifier = match IdentifierHeader::parse(bytes) {
            Ok(h) => h,
            Err(e) => {
                return Err(e);
            },
        };
        match identifier.class {
            Class::Bits64 => {},
            _ => {
                return Err(ElfError::UnsupportedClass);
            },
        }
        match identifier.data {
            Data::LittleEndian => {},
            _ => {
                return Err(ElfError::UnsupportedEndianness);
            },
        }
        let primary = match PrimaryHeader::parse_64_le(bytes) {
            Ok(h) => h,
            Err(e) => {
                return Err(e);
            },
        };
        Ok(Header { identifier, primary })
    }
}

} // verus!
