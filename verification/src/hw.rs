pub mod clock;
pub mod component;
pub mod cpu;
pub mod device;
pub mod nes;

pub use self::nes::Nes;
