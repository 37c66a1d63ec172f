//! PS1 GPU control and status registers for audio-oriented machine composition.
//!
//! The component models command acceptance, display/DMA control state, and GPU
//! information latches. It intentionally has no framebuffer or rasterizer:
//! PSF playback needs the control-plane behavior used by game initialization,
//! while rendered video has no observable audio effect.

use vstd::prelude::*;

verus! {

/// GP0 command and GPU read-data register.
pub const GP0: u32 = 0x1f80_1810;

/// GP1 control and GPU status register.
pub const GP1: u32 = 0x1f80_1814;

/// Status register after reset.
pub const RESET_STATUS: u32 = 0x1480_2000;

/// Vertical-interlace field bit of the status register.
pub const STATUS_FIELD: u32 = 0x0000_2000;

/// Display-disabled bit of the status register.
pub const STATUS_DISPLAY_OFF: u32 = 0x0080_0000;

/// Interrupt-request bit of the status register.
pub const STATUS_IRQ: u32 = 0x0100_0000;

/// DMA-request bit of the status register.
pub const STATUS_DMA_REQUEST: u32 = 0x0200_0000;

/// Ready-for-command bit of the status register.
pub const STATUS_READY_COMMAND: u32 = 0x0400_0000;

/// Ready-to-send-VRAM bit of the status register.
pub const STATUS_READY_VRAM_READ: u32 = 0x0800_0000;

/// Ready-for-DMA-block bit of the status register.
pub const STATUS_READY_DMA: u32 = 0x1000_0000;

/// DMA-direction field of the status register.
pub const STATUS_DMA_DIRECTION: u32 = 0x6000_0000;

/// Fields of the status register that a draw-mode command replaces.
pub const STATUS_DRAW_MODE: u32 = 0x0000_87ff;

/// Mask-setting field of the status register.
pub const STATUS_MASK_SETTING: u32 = 0x0000_1800;

/// Fields of the status register that a display-mode command clears.
pub const STATUS_DISPLAY_MODE: u32 = 0x007f_4000;

/// Invalid GPU register access.
#[derive(Clone, Copy, Debug, PartialEq, Eq, Structural)]
pub enum GpuError {
    /// Address is not one of the two 32-bit GPU ports.
    InvalidRegister {
        /// Physical register address.
        address: u32,
    },
}

/// Instance-owned PS1 GPU control-plane state.
#[derive(Clone, Copy, Debug, PartialEq, Eq, Structural)]
pub struct Gpu {
    pub status: u32,
    pub read_latch: u32,
    pub texture_window: u32,
    pub draw_area_top_left: u32,
    pub draw_area_bottom_right: u32,
    pub draw_offset: u32,
}

/// The status after a DMA direction was chosen: the request bit follows the readiness
/// that the direction waits for.
pub open spec fn directed(status: u32, direction: u32) -> u32 {
    let chosen = (status & !(STATUS_DMA_DIRECTION | STATUS_DMA_REQUEST)) | (direction << 29u32);
    if direction == 1 || (direction == 2 && chosen & STATUS_READY_DMA != 0) || (direction == 3
        && chosen & STATUS_READY_VRAM_READ != 0) {
        chosen | STATUS_DMA_REQUEST
    } else {
        chosen
    }
}

/// The status after a display mode was set.
pub open spec fn displayed(status: u32, value: u32) -> u32 {
    let shown = (status & !STATUS_DISPLAY_MODE) | (((value >> 6u32) & 1) << 16u32) | ((value & 3)
        << 17u32) | (((value >> 2u32) & 0x0f) << 19u32) | (((value >> 7u32) & 1) << 14u32);
    if value & 0x20 == 0 {
        shown | STATUS_FIELD
    } else {
        shown
    }
}

impl Gpu {
    /// The post-reset state.
    pub open spec fn at_reset() -> Gpu {
        Gpu {
            status: RESET_STATUS,
            read_latch: 0,
            texture_window: 0,
            draw_area_top_left: 0,
            draw_area_bottom_right: 0,
            draw_offset: 0,
        }
    }

    /// What a GP0 command word changes, before the ports report readiness.
    pub open spec fn drawn(self, value: u32) -> Gpu {
        let command = value >> 24u32;
        if command == 0x1f {
            Gpu { status: self.status | STATUS_IRQ, ..self }
        } else if command == 0xe1 {
            Gpu {
                status: (self.status & !STATUS_DRAW_MODE) | (value & 0x07ff) | ((value & 0x0800)
                    << 4u32),
                ..self
            }
        } else if command == 0xe2 {
            Gpu { texture_window: value & 0x000f_ffff, ..self }
        } else if command == 0xe3 {
            Gpu { draw_area_top_left: value & 0x0007_ffff, ..self }
        } else if command == 0xe4 {
            Gpu { draw_area_bottom_right: value & 0x0007_ffff, ..self }
        } else if command == 0xe5 {
            Gpu { draw_offset: value & 0x003f_ffff, ..self }
        } else if command == 0xe6 {
            Gpu {
                status: (self.status & !STATUS_MASK_SETTING) | ((value & 3) << 11u32),
                ..self
            }
        } else {
            self
        }
    }

    /// The state after a GP0 command word.
    pub open spec fn commanded(self, value: u32) -> Gpu {
        let drawn = self.drawn(value);
        Gpu { status: drawn.status | (STATUS_READY_COMMAND | STATUS_READY_DMA), ..drawn }
    }

    /// The state after a GP1 command word.
    pub open spec fn controlled(self, value: u32) -> Gpu {
        let command = value >> 24u32;
        if command == 0 {
            Gpu::at_reset()
        } else if command == 1 {
            Gpu {
                status: (self.status | (STATUS_READY_COMMAND | STATUS_READY_DMA))
                    & !STATUS_READY_VRAM_READ,
                ..self
            }
        } else if command == 2 {
            Gpu { status: self.status & !STATUS_IRQ, ..self }
        } else if command == 3 {
            Gpu {
                status: (self.status & !STATUS_DISPLAY_OFF) | ((value & 1) << 23u32),
                ..self
            }
        } else if command == 4 {
            Gpu { status: directed(self.status, value & 3), ..self }
        } else if command == 8 {
            Gpu { status: displayed(self.status, value), ..self }
        } else if 0x10 <= command <= 0x1f {
            Gpu { read_latch: self.info_value(value & 7), ..self }
        } else {
            self
        }
    }

    /// The answer to an information query.
    pub open spec fn info_value(self, index: u32) -> u32 {
        if index == 2 {
            self.texture_window
        } else if index == 3 {
            self.draw_area_top_left
        } else if index == 4 {
            self.draw_area_bottom_right
        } else if index == 5 {
            self.draw_offset
        } else if index == 7 {
            2
        } else {
            self.read_latch
        }
    }

    /// Constructs the post-reset GPU state.
    pub fn new() -> (result: Self)
        ensures
            result == Gpu::at_reset(),
    {
        Self {
            status: RESET_STATUS,
            read_latch: 0,
            texture_window: 0,
            draw_area_top_left: 0,
            draw_area_bottom_right: 0,
            draw_offset: 0,
        }
    }

    /// Reads GPUREAD or GPUSTAT.
    pub fn read_register(&self, address: u32) -> (result: Result<u32, GpuError>)
        ensures
            result == if address == GP0 {
                Ok(self.read_latch)
            } else if address == GP1 {
                Ok(self.status)
            } else {
                Err(GpuError::InvalidRegister { address })
            },
    {
        match address {
            GP0 => Ok(self.read_latch),
            GP1 => Ok(self.status),
            _ => Err(GpuError::InvalidRegister { address }),
        }
    }

    /// Writes a GP0 or GP1 command word.
    pub fn write_register(&mut self, address: u32, value: u32) -> (result: Result<(), GpuError>)
        ensures
            result == if address == GP0 || address == GP1 {
                Ok(())
            } else {
                Err(GpuError::InvalidRegister { address })
            },
            *final(self) == if address == GP0 {
                old(self).commanded(value)
            } else if address == GP1 {
                old(self).controlled(value)
            } else {
                *old(self)
            },
    {
        match address {
            GP0 => self.write_gp0(value),
            GP1 => self.write_gp1(value),
            _ => {
                return Err(GpuError::InvalidRegister { address });
            },
        }
        Ok(())
    }

    fn write_gp0(&mut self, value: u32)
        ensures
            *final(self) == old(self).commanded(value),
    {
        match value >> 24u32 {
            0x1f => {
                self.status = self.status | STATUS_IRQ;
            },
            0xe1 => {
                self.status = (self.status & !STATUS_DRAW_MODE) | (value & 0x07ff) | ((value
                    & 0x0800) << 4u32);
            },
            0xe2 => {
                self.texture_window = value & 0x000f_ffff;
            },
            0xe3 => {
                self.draw_area_top_left = value & 0x0007_ffff;
            },
            0xe4 => {
                self.draw_area_bottom_right = value & 0x0007_ffff;
            },
            0xe5 => {
                self.draw_offset = value & 0x003f_ffff;
            },
            0xe6 => {
                self.status = (self.status & !STATUS_MASK_SETTING) | ((value & 3) << 11u32);
            },
            _ => {},
        }
        self.status = self.status | (STATUS_READY_COMMAND | STATUS_READY_DMA);
    }

    fn write_gp1(&mut self, value: u32)
        ensures
            *final(self) == old(self).controlled(value),
    {
        let command: u32 = value >> 24u32;
        match command {
            0x00 => {
                *self = Self::new();
            },
            0x01 => {
                self.status = self.status | (STATUS_READY_COMMAND | STATUS_READY_DMA);
                self.status = self.status & !STATUS_READY_VRAM_READ;
            },
            0x02 => {
                self.status = self.status & !STATUS_IRQ;
            },
            0x03 => {
                self.status = (self.status & !STATUS_DISPLAY_OFF) | ((value & 1) << 23u32);
            },
            0x04 => self.set_dma_direction(value & 3),
            0x08 => self.set_display_mode(value),
            _ => {
                if 0x10 <= command && command <= 0x1f {
                    self.read_latch = self.info(value & 7);
                }
            },
        }
    }

    fn set_dma_direction(&mut self, direction: u32)
        ensures
            *final(self) == (Gpu { status: directed(old(self).status, direction), ..*old(self) }),
    {
        self.status = (self.status & !(STATUS_DMA_DIRECTION | STATUS_DMA_REQUEST)) | (direction
            << 29u32);
        let request = match direction {
            1 => true,
            2 => self.status & STATUS_READY_DMA != 0,
            3 => self.status & STATUS_READY_VRAM_READ != 0,
            _ => false,
        };
        if request {
            self.status = self.status | STATUS_DMA_REQUEST;
        }
    }

    fn set_display_mode(&mut self, value: u32)
        ensures
            *final(self) == (Gpu { status: displayed(old(self).status, value), ..*old(self) }),
    {
        self.status = self.status & !STATUS_DISPLAY_MODE;
        self.status = self.status | (((value >> 6u32) & 1) << 16u32);
        self.status = self.status | ((value & 3) << 17u32);
        self.status = self.status | (((value >> 2u32) & 0x0f) << 19u32);
        self.status = self.status | (((value >> 7u32) & 1) << 14u32);
        if value & 0x20 == 0 {
            self.status = self.status | STATUS_FIELD;
        }
    }

    fn info(&self, index: u32) -> (result: u32)
        ensures
            result == self.info_value(index),
    {
        match index {
            2 => self.texture_window,
            3 => self.draw_area_top_left,
            4 => self.draw_area_bottom_right,
            5 => self.draw_offset,
            7 => 2,
            _ => self.read_latch,
        }
    }
}

impl Default for Gpu {
    fn default() -> (result: Self)
        ensures
            result == Gpu::at_reset(),
    {
        Self::new()
    }
}

/// A drawing attribute that was set through GP0 is what the information query with its
/// index leaves in the read latch.
pub proof fn law_drawing_attribute_reads_back(gpu: Gpu, value: u32, query: u32)
    requires
        0xe2 <= value >> 24u32 <= 0xe5,
        0x10 <= query >> 24u32 <= 0x1f,
        query & 7 == (value >> 24u32) - 0xe0,
    ensures
        gpu.commanded(value).controlled(query).read_latch == value & (if value >> 24u32 == 0xe2 {
            0x000f_ffffu32
        } else if value >> 24u32 == 0xe5 {
            0x003f_ffffu32
        } else {
            0x0007_ffffu32
        }),
{
}

/// The chosen DMA direction stands in its status field, and the request bit is set for
/// the first direction, never for direction zero, and otherwise with the readiness bit
/// that the direction waits for.
pub proof fn law_direction_gates_request(gpu: Gpu, value: u32)
    requires
        value >> 24u32 == 4,
    ensures
        gpu.controlled(value).status & STATUS_DMA_DIRECTION == (value & 3) << 29u32,
        gpu.controlled(value).status & STATUS_DMA_REQUEST != 0 <==> {
            ||| value & 3 == 1
            ||| value & 3 == 2 && gpu.status & STATUS_READY_DMA != 0
            ||| value & 3 == 3 && gpu.status & STATUS_READY_VRAM_READ != 0
        },
{
    let status = gpu.status;
    let direction = value & 3;
    let chosen = (status & !(STATUS_DMA_DIRECTION | STATUS_DMA_REQUEST)) | (direction << 29u32);
    assert(direction <= 3 && chosen & 0x6000_0000 == direction << 29u32 && chosen & 0x0200_0000
        == 0 && (chosen | 0x0200_0000) & 0x6000_0000 == direction << 29u32 && (chosen
        | 0x0200_0000) & 0x0200_0000 != 0 && chosen & 0x1000_0000 == status & 0x1000_0000 && chosen
        & 0x0800_0000 == status & 0x0800_0000) by (bit_vector)
        requires
            direction == value & 3,
            chosen == (status & !(0x6000_0000u32 | 0x0200_0000u32)) | (direction << 29u32),
    ;
}

/// The interrupt command raises the request bit, and the acknowledge command clears it
/// and nothing else.
pub proof fn law_interrupt_is_acknowledged(gpu: Gpu, raise: u32, acknowledge: u32)
    requires
        raise >> 24u32 == 0x1f,
        acknowledge >> 24u32 == 2,
    ensures
        gpu.commanded(raise).status & STATUS_IRQ != 0,
        gpu.controlled(acknowledge).status & STATUS_IRQ == 0,
        gpu.controlled(acknowledge).status | STATUS_IRQ == gpu.status | STATUS_IRQ,
{
    let status = gpu.status;
    assert(((status | 0x0100_0000) | (0x0400_0000u32 | 0x1000_0000u32)) & 0x0100_0000 != 0 && (
    status & !0x0100_0000u32) & 0x0100_0000 == 0 && (status & !0x0100_0000u32) | 0x0100_0000
        == status | 0x0100_0000) by (bit_vector);
}

} // verus!
