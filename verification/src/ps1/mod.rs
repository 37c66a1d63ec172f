//! PlayStation devices.

pub mod cdrom;
pub mod counting;
pub mod devices;
pub mod dma;
pub mod gpu;
pub mod irq;
pub mod mdec;
pub mod memory;
pub mod playback;
pub mod resampling;
pub mod reverb;
pub mod sound;
pub mod spu;
pub mod timers;
pub mod transfers;
pub mod voice;
