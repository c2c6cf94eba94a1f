//! ELF64 program headers: segment type, permission flags, and alignment.

use crate::elf::{read_le_u32, read_le_u64, spec_le, ElfError};
use crate::pte::{EntryAttributes, EntryFlags};
use vstd::prelude::*;

verus! {

/// The type of a segment (`p_type`).
#[derive(Clone, Copy, PartialEq, Eq, Structural, Debug)]
pub enum ProgramType {
    /// Program header table entry unused (`NULL`).
    Null,
    /// Loadable segment (`LOAD`).
    Loadable,
    /// Dynamic linking information (`DYNAMIC`).
    Dynamic,
    /// Interpreter information (`INTERP`).
    Interpreter,
    /// Auxiliary information (`NOTE`).
    Note,
    /// Reserved (`SHLIB`).
    ShLib,
    /// The program header table itself (`PHDR`).
    ProgramHeaderTable,
    /// Thread-local storage template (`TLS`).
    ThreadLocalStorage,
    /// The reserved operating-system-specific range (`LOOS..=HIOS`).
    OperatingSystemSpecific,
    /// The reserved processor-specific range (`LOPROC..=HIPROC`).
    ProcessorSpecific,
}

/// The segment type a 32-bit field decodes to, if any: the two reserved
/// ranges each collapse to one variant.
pub open spec fn spec_program_type(v: u32) -> Option<ProgramType> {
    if 0x60000000 <= v <= 0x6FFFFFFF {
        Some(ProgramType::OperatingSystemSpecific)
    } else if 0x70000000 <= v <= 0x7FFFFFFF {
        Some(ProgramType::ProcessorSpecific)
    } else {
        match v {
            0 => Some(ProgramType::Null),
            1 => Some(ProgramType::Loadable),
            2 => Some(ProgramType::Dynamic),
            3 => Some(ProgramType::Interpreter),
            4 => Some(ProgramType::Note),
            5 => Some(ProgramType::ShLib),
            6 => Some(ProgramType::ProgramHeaderTable),
            7 => Some(ProgramType::ThreadLocalStorage),
            _ => None,
        }
    }
}

impl ProgramType {
    /// Decode a segment type field.
    pub fn parse(v: u32) -> (r: Option<ProgramType>)
        ensures
            r == spec_program_type(v),
    {
        if 0x60000000 <= v && v <= 0x6FFFFFFF {
            Some(ProgramType::OperatingSystemSpecific)
        } else if 0x70000000 <= v && v <= 0x7FFFFFFF {
            Some(ProgramType::ProcessorSpecific)
        } else if v == 0 {
            Some(ProgramType::Null)
        } else if v == 1 {
            Some(ProgramType::Loadable)
        } else if v == 2 {
            Some(ProgramType::Dynamic)
        } else if v == 3 {
            Some(ProgramType::Interpreter)
        } else if v == 4 {
            Some(ProgramType::Note)
        } else if v == 5 {
            Some(ProgramType::ShLib)
        } else if v == 6 {
            Some(ProgramType::ProgramHeaderTable)
        } else if v == 7 {
            Some(ProgramType::ThreadLocalStorage)
        } else {
            None
        }
    }
}

/// The permission flags of a segment (`p_flags`): X is bit 0, W bit 1,
/// R bit 2.
#[derive(Clone, Copy, PartialEq, Eq, Structural, Debug)]
pub struct ProgramFlags {
    pub raw: u32,
}

impl ProgramFlags {
    /// Whether the segment asks for execute permission.
    pub open spec fn spec_execute(self) -> bool {
        self.raw & 1 == 1
    }

    /// Whether the segment asks for write permission.
    pub open spec fn spec_write(self) -> bool {
        self.raw & 2 == 2
    }

    /// Whether the segment asks for read permission.
    pub open spec fn spec_read(self) -> bool {
        self.raw & 4 == 4
    }

    /// Whether the segment asks for execute permission.
    pub fn execute(&self) -> (r: bool)
        ensures
            r == self.spec_execute(),
    {
        proof {
            let v = self.raw;
            assert((v & 1 == 1) == !(v & 1 == 0)) by (bit_vector);
        }
        self.raw & 1 != 0
    }

    /// Whether the segment asks for write permission.
    pub fn write(&self) -> (r: bool)
        ensures
            r == self.spec_write(),
    {
        proof {
            let v = self.raw;
            assert((v & 2 == 2) == !(v & 2 == 0)) by (bit_vector);
        }
        self.raw & 2 != 0
    }

    /// Whether the segment asks for read permission.
    pub fn read(&self) -> (r: bool)
        ensures
            r == self.spec_read(),
    {
        proof {
            let v = self.raw;
            assert((v & 4 == 4) == !(v & 4 == 0)) by (bit_vector);
        }
        self.raw & 4 != 0
    }
}

/// The page attributes a segment's permissions call for, always with the
/// User bit: R, R|X and R|W are accepted; W or X without R, and W together
/// with X, are not.
pub open spec fn spec_convert_flags(f: ProgramFlags) -> Option<EntryAttributes> {
    match (f.spec_read(), f.spec_write(), f.spec_execute()) {
        (true, false, false) => Some(EntryAttributes::UserRead),
        (true, false, true) => Some(EntryAttributes::UserReadExecute),
        (true, true, false) => Some(EntryAttributes::UserReadWrite),
        _ => None,
    }
}

/// Convert a segment's permissions to page attributes.
pub fn convert_flags(f: &ProgramFlags) -> (r: Option<EntryAttributes>)
    ensures
        r == spec_convert_flags(*f),
        r matches Some(a) ==> a.spec_flags().spec_is_legal_leaf() && a.spec_flags().user,
{
    let read = f.read();
    let write = f.write();
    let execute = f.execute();
    if read && !write && !execute {
        Some(EntryAttributes::UserRead)
    } else if read && !write && execute {
        Some(EntryAttributes::UserReadExecute)
    } else if read && write && !execute {
        Some(EntryAttributes::UserReadWrite)
    } else {
        None
    }
}

/// The alignment of a segment (`p_align`): none (0 or 1), or a power of
/// two.
#[derive(Clone, Copy, PartialEq, Eq, Structural, Debug)]
pub enum Alignment {
    /// No alignment required (`0` or `1`).
    Unaligned,
    /// An alignment that is a power of two.
    PowerOfTwo(u64),
}

/// Whether a value is a power of two, in the bit form the check uses.
pub open spec fn spec_is_power_of_two(v: u64) -> bool {
    v != 0 && v & ((v - 1) as u64) == 0
}

/// The alignment a 64-bit field decodes to, if any.
pub open spec fn spec_alignment(v: u64) -> Option<Alignment> {
    if v == 0 || v == 1 {
        Some(Alignment::Unaligned)
    } else if spec_is_power_of_two(v) {
        Some(Alignment::PowerOfTwo(v))
    } else {
        None
    }
}

impl Alignment {
    /// Decode an alignment field.
    pub fn parse(v: u64) -> (r: Option<Alignment>)
        ensures
            r == spec_alignment(v),
    {
        if v == 0 || v == 1 {
            Some(Alignment::Unaligned)
        } else if v & (v - 1) == 0 {
            Some(Alignment::PowerOfTwo(v))
        } else {
            None
        }
    }
}

/// One program header of a 64-bit image.
#[derive(Clone, Copy, PartialEq, Eq, Structural, Debug)]
pub struct ProgramHeader {
    pub program_type: ProgramType,
    pub flags: ProgramFlags,
    pub offset: u64,
    pub virtual_address: u64,
    pub physical_address: u64,
    pub file_size: u64,
    pub memory_size: u64,
    pub alignment: Alignment,
}

/// Byte length of one 64-bit program header.
pub const PROGRAM_HEADER_64_LEN: usize = 56;

/// What a program header parsed from `s` at `off` holds, when the type and
/// alignment fields are defined.
pub open spec fn spec_program_header(s: Seq<u8>, off: int) -> Option<ProgramHeader> {
    let t = spec_program_type(spec_le(s, off, 4) as u32);
    let a = spec_alignment(spec_le(s, off + 48, 8) as u64);
    if t is None || a is None {
        None
    } else {
        Some(
            ProgramHeader {
                program_type: t->0,
                flags: ProgramFlags { raw: spec_le(s, off + 4, 4) as u32 },
                offset: spec_le(s, off + 8, 8) as u64,
                virtual_address: spec_le(s, off + 16, 8) as u64,
                physical_address: spec_le(s, off + 24, 8) as u64,
                file_size: spec_le(s, off + 32, 8) as u64,
                memory_size: spec_le(s, off + 40, 8) as u64,
                alignment: a->0,
            },
        )
    }
}

impl ProgramHeader {
    /// Decode the 56-byte program header at `off`.  Fails exactly when the
    /// image is too short there or the type or alignment field is outside
    /// its defined set.
    pub fn parse(bytes: &[u8], off: usize) -> (r: Result<ProgramHeader, ElfError>)
        ensures
            off + PROGRAM_HEADER_64_LEN > bytes@.len() ==> r == Err::<ProgramHeader, ElfError>(
                ElfError::TooShort,
            ),
            off + PROGRAM_HEADER_64_LEN <= bytes@.len() ==> match r {
                Ok(h) => spec_program_header(bytes@, off as int) == Some(h),
                Err(e) => e == ElfError::BadField && spec_program_header(bytes@, off as int)
                    is None,
            },
    {
        if bytes.len() < PROGRAM_HEADER_64_LEN || off > bytes.len() - PROGRAM_HEADER_64_LEN {
            return Err(ElfError::TooShort);
        }
        let program_type = match ProgramType::parse(read_le_u32(bytes, off)) {
            Some(t) => t,
            None => {
                return Err(ElfError::BadField);
            },
        };
        let alignment = match Alignment::parse(read_le_u64(bytes, off + 48)) {
            Some(a) => a,
            None => {
                return Err(ElfError::BadField);
            },
        };
        Ok(
            ProgramHeader {
                program_type,
                flags: ProgramFlags { raw: read_le_u32(bytes, off + 4) },
                offset: read_le_u64(bytes, off + 8),
                virtual_address: read_le_u64(bytes, off + 16),
                physical_address: read_le_u64(bytes, off + 24),
                file_size: read_le_u64(bytes, off + 32),
                memory_size: read_le_u64(bytes, off + 40),
                alignment,
            },
        )
    }
}

} // verus!
