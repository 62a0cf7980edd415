use vstd::prelude::*;

verus! {

/// A memory-banking scheme that a cartridge can carry, named after the board
/// or chip that implements it.
#[allow(non_camel_case_types)]
#[derive(Clone, Copy, Debug, PartialEq, Eq, Structural)]
pub enum Mapper {
    NROM,
    MMC1,
    UxROM,
    CNROM,
    MMC3_6,
    MMC5,
    AxROM,
    MMC2,
    MMC4,
    ColorDreams,
    CPROM,
    HundredInOneContraFunction16,
    BandaiEPROM24C02,
    JalecoSS8806,
    Namco163,
    VRC4a_c,
    VRC2a,
    VRC6a,
    VRC4b_d,
    VRC6b,
    BNROM,
    RAMBO1,
    GxROM,
    AfterBurner,
    FME7,
    CamericaCodemasters,
    VRC3,
    PirateMMC3,
    VRC1,
    Namco109,
    NINA03_06,
    VRC7,
    JalecoJF13,
    SenjouNoOokami,
    NesEvent,
    NTD8,
    TxSROM,
    TQROM,
    BandaiEPROM24C01,
    SUBOR166,
    SUBOR167,
    CrazyClimber,
    CNROMProtection,
    FS308,
    DxROM,
    Namco175_340,
    Action52,
    CameraCodemastersQuattro,
}

impl Mapper {
    /// The number by which a ROM header names this mapper.
    pub open spec fn id(self) -> nat {
        match self {
            Mapper::NROM => 0,
            Mapper::MMC1 => 1,
            Mapper::UxROM => 2,
            Mapper::CNROM => 3,
            Mapper::MMC3_6 => 4,
            Mapper::MMC5 => 5,
            Mapper::AxROM => 7,
            Mapper::MMC2 => 9,
            Mapper::MMC4 => 10,
            Mapper::ColorDreams => 11,
            Mapper::CPROM => 13,
            Mapper::HundredInOneContraFunction16 => 15,
            Mapper::BandaiEPROM24C02 => 16,
            Mapper::JalecoSS8806 => 18,
            Mapper::Namco163 => 19,
            Mapper::VRC4a_c => 21,
            Mapper::VRC2a => 22,
            Mapper::VRC6a => 24,
            Mapper::VRC4b_d => 25,
            Mapper::VRC6b => 26,
            Mapper::BNROM => 34,
            Mapper::RAMBO1 => 64,
            Mapper::GxROM => 66,
            Mapper::AfterBurner => 68,
            Mapper::FME7 => 69,
            Mapper::CamericaCodemasters => 71,
            Mapper::VRC3 => 73,
            Mapper::PirateMMC3 => 74,
            Mapper::VRC1 => 75,
            Mapper::Namco109 => 76,
            Mapper::NINA03_06 => 79,
            Mapper::VRC7 => 85,
            Mapper::JalecoJF13 => 86,
            Mapper::SenjouNoOokami => 94,
            Mapper::NesEvent => 105,
            Mapper::NTD8 => 113,
            Mapper::TxSROM => 118,
            Mapper::TQROM => 119,
            Mapper::BandaiEPROM24C01 => 159,
            Mapper::SUBOR166 => 166,
            Mapper::SUBOR167 => 167,
            Mapper::CrazyClimber => 180,
            Mapper::CNROMProtection => 185,
            Mapper::FS308 => 192,
            Mapper::DxROM => 206,
            Mapper::Namco175_340 => 210,
            Mapper::Action52 => 228,
            Mapper::CameraCodemastersQuattro => 232,
        }
    }

    /// The mapper whose number is `id`, if there is one.
    pub open spec fn with_id(id: nat) -> Option<Mapper> {
        if exists|m: Mapper| m.id() == id {
            Some(choose|m: Mapper| m.id() == id)
        } else {
            None
        }
    }

    /// The mapper that a header names by `id`, if this emulator knows one.
    pub fn from_usize(id: usize) -> (r: Option<Mapper>)
        ensures
            r == Mapper::with_id(id as nat),
            match r {
                Some(m) => m.id() == id,
                None => forall|m: Mapper| m.id() != id,
            },
    {
        match id {
            0 => Some(Mapper::NROM),
            1 => Some(Mapper::MMC1),
            2 => Some(Mapper::UxROM),
            3 => Some(Mapper::CNROM),
            4 => Some(Mapper::MMC3_6),
            5 => Some(Mapper::MMC5),
            7 => Some(Mapper::AxROM),
            9 => Some(Mapper::MMC2),
            10 => Some(Mapper::MMC4),
            11 => Some(Mapper::ColorDreams),
            13 => Some(Mapper::CPROM),
            15 => Some(Mapper::HundredInOneContraFunction16),
            16 => Some(Mapper::BandaiEPROM24C02),
            18 => Some(Mapper::JalecoSS8806),
            19 => Some(Mapper::Namco163),
            21 => Some(Mapper::VRC4a_c),
            22 => Some(Mapper::VRC2a),
            24 => Some(Mapper::VRC6a),
            25 => Some(Mapper::VRC4b_d),
            26 => Some(Mapper::VRC6b),
            34 => Some(Mapper::BNROM),
            64 => Some(Mapper::RAMBO1),
            66 => Some(Mapper::GxROM),
            68 => Some(Mapper::AfterBurner),
            69 => Some(Mapper::FME7),
            71 => Some(Mapper::CamericaCodemasters),
            73 => Some(Mapper::VRC3),
            74 => Some(Mapper::PirateMMC3),
            75 => Some(Mapper::VRC1),
            76 => Some(Mapper::Namco109),
            79 => Some(Mapper::NINA03_06),
            85 => Some(Mapper::VRC7),
            86 => Some(Mapper::JalecoJF13),
            94 => Some(Mapper::SenjouNoOokami),
            105 => Some(Mapper::NesEvent),
            113 => Some(Mapper::NTD8),
            118 => Some(Mapper::TxSROM),
            119 => Some(Mapper::TQROM),
            159 => Some(Mapper::BandaiEPROM24C01),
            166 => Some(Mapper::SUBOR166),
            167 => Some(Mapper::SUBOR167),
            180 => Some(Mapper::CrazyClimber),
            185 => Some(Mapper::CNROMProtection),
            192 => Some(Mapper::FS308),
            206 => Some(Mapper::DxROM),
            210 => Some(Mapper::Namco175_340),
            228 => Some(Mapper::Action52),
            232 => Some(Mapper::CameraCodemastersQuattro),
            _ => None,
        }
    }
}

/// No two mappers share a number, so a number names at most one mapper.
pub proof fn lemma_mapper_ids_are_distinct(a: Mapper, b: Mapper)
    requires
        a.id() == b.id(),
    ensures
        a == b,
{
}

/// A mapper is found again by its number.
pub proof fn lemma_mapper_is_found_by_id(m: Mapper)
    ensures
        Mapper::with_id(m.id()) == Some(m),
{
    lemma_mapper_ids_are_distinct(m, choose|other: Mapper| other.id() == m.id());
}

} // verus!
