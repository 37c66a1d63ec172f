//! PlayStation 2 I/O-processor devices.

pub mod addresses;
pub mod counting;
pub mod devices;
pub mod dma;
pub mod effects;
pub mod irq;
pub mod memory;
pub mod mixing;
pub mod playback;
pub mod sound_core;
pub mod spu2;
pub mod ssbus;
pub mod timers;
pub mod transfers;
pub mod voice;
