use vstd::prelude::*;
use vstd::slice::slice_to_vec;
use crate::rom::ines::HEADER_LEN;
use crate::rom::ines::Header;
use crate::rom::ines::INes;
use crate::rom::ines::TvSystem;
use crate::rom::mapper::Mapper;

pub mod ines;
pub mod mapper;

verus! {

/// Why a ROM image was turned away.
///
/// The first two are faults of the file itself. The others name a feature
/// that the file is entitled to use and this emulator does not yet provide.
#[derive(Clone, Copy, Debug, PartialEq, Eq, Structural)]
pub enum RomError {
    /// The image does not begin with the four bytes `NES\x1A`.
    BadMagic,
    /// The image ends before the header or a section that the header announces.
    Truncated,
    /// The image is not for an NTSC console, or its region cannot be told.
    UnsupportedRegion,
    /// The header names a mapper other than NROM, which has the number 0.
    /// This is the number that it names.
    UnsupportedMapper(usize),
    /// The number stands for no mapper that is known by name. This is what
    /// looking a mapper up comes to; an image is turned away for its mapper
    /// with [`RomError::UnsupportedMapper`], known or not.
    UnknownMapper(usize),
    /// The header asks for a variant of its mapper.
    UnsupportedSubmapper,
    /// The image carries a trainer.
    UnsupportedTrainer,
}

/// The memory of a cartridge that this emulator can run.
#[derive(Debug)]
pub struct Cartridge {
    prg_rom: Vec<u8>,
    chr_rom: Vec<u8>,
}

impl Cartridge {
    /// The bytes of program memory.
    pub closed spec fn program_memory(&self) -> Seq<u8> {
        self.prg_rom@
    }

    /// The bytes of character memory.
    pub closed spec fn character_memory(&self) -> Seq<u8> {
        self.chr_rom@
    }

    /// The first thing that a header asks for and this emulator does not
    /// provide, in the order region, mapper, submapper, trainer. The one
    /// mapper that it provides is NROM.
    pub open spec fn unsupported(header: Header) -> Option<RomError> {
        if header.tv_system() != Some(TvSystem::Ntsc) {
            Some(RomError::UnsupportedRegion)
        } else if header.mapper_id() != Mapper::NROM.id() {
            Some(RomError::UnsupportedMapper(header.mapper_id() as usize))
        } else if header.submapper_id().unwrap_or(0) != 0 {
            Some(RomError::UnsupportedSubmapper)
        } else if header.flags6_7.has_trainer() {
            Some(RomError::UnsupportedTrainer)
        } else {
            None
        }
    }

    /// Why the image `s` is turned away, if it is: for a fault of its layout,
    /// or else for what its header asks for.
    pub open spec fn rejection(s: Seq<u8>) -> Option<RomError> {
        match INes::layout_fault(s) {
            Some(e) => Some(e),
            None => Self::unsupported(Header::of(s)),
        }
    }

    /// Reads a cartridge from a ROM image.
    ///
    /// The image is taken if it is laid out as an iNES file and asks for
    /// nothing that is unsupported. The cartridge then holds its program and
    /// character memory. Otherwise the error names the first rule that
    /// turned it away.
    pub fn from_rom(bytes: &[u8]) -> (r: Result<Self, RomError>)
        ensures
            match r {
                Ok(cartridge) => {
                    &&& Self::rejection(bytes@) is None
                    &&& cartridge.program_memory() == INes::image(bytes@).prg_rom
                    &&& cartridge.character_memory() == INes::image(bytes@).chr_rom
                },
                Err(e) => Self::rejection(bytes@) == Some(e),
            },
    {
        let rom = match INes::parse(bytes) {
            Ok(rom) => rom,
            Err(e) => {
                return Err(e);
            },
        };
        match rom.tv_system() {
            Some(TvSystem::Ntsc) => {},
            _ => {
                return Err(RomError::UnsupportedRegion);
            },
        }
        let mapper_id = rom.mapper_id();
        if mapper_id != 0 {
            return Err(RomError::UnsupportedMapper(mapper_id));
        }
        match rom.submapper_id() {
            Some(id) if id != 0 => {
                return Err(RomError::UnsupportedSubmapper);
            },
            _ => {},
        }
        if rom.trainer().is_some() {
            return Err(RomError::UnsupportedTrainer);
        }
        Ok(Cartridge { prg_rom: slice_to_vec(rom.prg_rom()), chr_rom: slice_to_vec(rom.chr_rom()) })
    }

    /// Program memory.
    pub fn prg_rom(&self) -> (r: &[u8])
        ensures
            r@ == self.program_memory(),
    {
        self.prg_rom.as_slice()
    }

    /// Character memory.
    pub fn chr_rom(&self) -> (r: &[u8])
        ensures
            r@ == self.character_memory(),
    {
        self.chr_rom.as_slice()
    }
}

/// Whether an image is taken, and if not why, depends on its header and its
/// length alone: what its sections hold plays no part.
pub proof fn lemma_rejection_ignores_payload(s: Seq<u8>, t: Seq<u8>)
    requires
        s.len() == t.len(),
        forall|i: int| 0 <= i < s.len() && i < HEADER_LEN ==> s[i] == t[i],
    ensures
        Cartridge::rejection(s) == Cartridge::rejection(t),
{
}

/// A header that sets the trainer bit and is otherwise acceptable is turned
/// away for its trainer, whatever follows it, as long as the image is whole.
pub proof fn lemma_trainer_is_rejected(s: Seq<u8>)
    requires
        INes::layout_fault(s) is None,
        Header::of(s).flags6_7.has_trainer(),
        Header::of(s).tv_system() == Some(TvSystem::Ntsc),
        Header::of(s).mapper_id() == 0,
        Header::of(s).submapper_id().unwrap_or(0) == 0,
    ensures
        Cartridge::rejection(s) == Some(RomError::UnsupportedTrainer),
{
}

} // verus!
