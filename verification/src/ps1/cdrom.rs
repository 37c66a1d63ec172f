//! PS1 CD-ROM banked register interface.
//!
//! PSF playback has no disc image, but rip drivers still initialize the CD-ROM
//! controller. This component models its four byte-wide registers and reset
//! state without pretending that media is present.

use vstd::prelude::*;

use crate::arrays::with;

verus! {

/// First physical address in the CD-ROM register window.
pub const CDROM_BASE: u32 = 0x1f80_1800;

/// Last physical address in the CD-ROM register window.
pub const CDROM_END: u32 = CDROM_BASE + 3;

/// Bytes that each FIFO holds.
pub const FIFO_CAPACITY: usize = 16;

/// Command and response register.
pub const REG1: u32 = CDROM_BASE + 1;

/// Parameter and data register.
pub const REG2: u32 = CDROM_BASE + 2;

/// Request and interrupt register.
pub const REG3: u32 = CDROM_BASE + 3;

/// Invalid CD-ROM register access.
#[derive(Clone, Copy, Debug, PartialEq, Eq, Structural)]
pub enum CdRomError {
    /// Address is outside the four-byte CD-ROM register window.
    InvalidRegister {
        /// Physical address supplied by the machine.
        address: u32,
    },
}

/// Instance-owned PS1 CD-ROM register state for a machine without media.
#[verifier::ext_equal]
#[derive(Clone, Debug, PartialEq, Eq)]
pub struct CdRom {
    pub index: u8,
    pub parameters: [u8; 16],
    pub parameter_count: usize,
    pub response: [u8; 16],
    pub response_read: usize,
    pub response_count: usize,
    pub interrupt_enable: u8,
    pub interrupt_flags: u8,
    pub request: u8,
    pub audio_volume: [u8; 4],
    pub applied_audio_volume: [u8; 4],
}

impl CdRom {
    /// The selected bank and the FIFO positions are in range.
    pub open spec fn wf(self) -> bool {
        &&& self.index < 4
        &&& self.parameter_count <= FIFO_CAPACITY
        &&& self.response_read < FIFO_CAPACITY
        &&& self.response_count <= FIFO_CAPACITY
    }

    /// Every register is zero and the FIFOs are empty.
    pub open spec fn at_reset(self) -> bool {
        &&& self.index == 0
        &&& self.parameters@ == Seq::new(16, |i: int| 0u8)
        &&& self.parameter_count == 0
        &&& self.response@ == Seq::new(16, |i: int| 0u8)
        &&& self.response_read == 0
        &&& self.response_count == 0
        &&& self.interrupt_enable == 0
        &&& self.interrupt_flags == 0
        &&& self.request == 0
        &&& self.audio_volume@ == seq![0u8, 0u8, 0u8, 0u8]
        &&& self.applied_audio_volume@ == seq![0u8, 0u8, 0u8, 0u8]
    }

    /// The parameters that wait for a command, first one first.
    pub open spec fn pending_parameters(self) -> Seq<u8> {
        self.parameters@.take(self.parameter_count as int)
    }

    /// The response bytes that were not read yet, first one first.
    pub open spec fn pending_response(self) -> Seq<u8> {
        Seq::new(
            self.response_count as nat,
            |i: int| self.response@[(self.response_read + i) % 16],
        )
    }

    /// The status register: the bank, and whether the parameter FIFO is empty, has room,
    /// and whether a response waits.
    pub open spec fn status_value(self) -> int {
        self.index + (if self.parameter_count == 0 {
            0x08int
        } else {
            0
        }) + (if self.parameter_count == FIFO_CAPACITY {
            0int
        } else {
            0x10
        }) + (if self.response_count != 0 {
            0x20int
        } else {
            0
        })
    }

    /// What a register reads as.
    pub open spec fn value_at(self, address: u32) -> Result<u8, CdRomError> {
        if address == CDROM_BASE {
            Ok(self.status_value() as u8)
        } else if address == REG1 {
            Ok(
                if self.response_count == 0 {
                    0
                } else {
                    self.response@[self.response_read as int]
                },
            )
        } else if address == REG2 {
            Ok(0)
        } else if address == REG3 {
            Ok(
                0xe0 | if self.index == 1 || self.index == 3 {
                    self.interrupt_flags
                } else {
                    self.interrupt_enable
                },
            )
        } else {
            Err(CdRomError::InvalidRegister { address })
        }
    }

    /// The state after a register read: only the response register has an effect.
    pub open spec fn after_read(self, address: u32) -> CdRom {
        if address == REG1 && self.response_count != 0 {
            CdRom {
                response_read: ((self.response_read + 1) % 16) as usize,
                response_count: (self.response_count - 1) as usize,
                ..self
            }
        } else {
            self
        }
    }

    /// The state after a write to the command register.
    pub open spec fn command_written(self, value: u8) -> CdRom {
        if self.index == 0 {
            CdRom { parameter_count: 0, ..self }
        } else if self.index == 3 {
            CdRom { audio_volume: with(self.audio_volume, 2, value), ..self }
        } else {
            self
        }
    }

    /// The state after a write to the parameter register.
    pub open spec fn parameter_written(self, value: u8) -> CdRom {
        if self.index == 0 {
            if self.parameter_count < FIFO_CAPACITY {
                CdRom {
                    parameters: with(self.parameters, self.parameter_count as int, value),
                    parameter_count: (self.parameter_count + 1) as usize,
                    ..self
                }
            } else {
                self
            }
        } else if self.index == 1 {
            CdRom { interrupt_enable: value & 0x1f, ..self }
        } else if self.index == 2 {
            CdRom { audio_volume: with(self.audio_volume, 0, value), ..self }
        } else {
            CdRom { audio_volume: with(self.audio_volume, 3, value), ..self }
        }
    }

    /// The state after a write to the request register.
    pub open spec fn request_written(self, value: u8) -> CdRom {
        if self.index == 0 {
            CdRom { request: value, ..self }
        } else if self.index == 1 {
            CdRom {
                interrupt_flags: self.interrupt_flags & !(value & 0x1f),
                parameter_count: if value & 0x40 != 0 {
                    0
                } else {
                    self.parameter_count
                },
                ..self
            }
        } else if self.index == 2 {
            CdRom { audio_volume: with(self.audio_volume, 1, value), ..self }
        } else if value & 0x20 != 0 {
            CdRom { applied_audio_volume: self.audio_volume, ..self }
        } else {
            self
        }
    }

    /// The state after a register write.
    pub open spec fn written(self, address: u32, value: u8) -> CdRom {
        if address == CDROM_BASE {
            CdRom { index: value % 4, ..self }
        } else if address == REG1 {
            self.command_written(value)
        } else if address == REG2 {
            self.parameter_written(value)
        } else if address == REG3 {
            self.request_written(value)
        } else {
            self
        }
    }

    /// Constructs the reset state of a drive with no disc inserted.
    pub fn new() -> (result: Self)
        ensures
            result.at_reset(),
            result.wf(),
    {
        let result = Self {
            index: 0,
            parameters: [0u8;16],
            parameter_count: 0,
            response: [0u8;16],
            response_read: 0,
            response_count: 0,
            interrupt_enable: 0,
            interrupt_flags: 0,
            request: 0,
            audio_volume: [0u8, 0u8, 0u8, 0u8],
            applied_audio_volume: [0u8, 0u8, 0u8, 0u8],
        };
        assert(result.parameters@ =~= Seq::new(16, |i: int| 0u8));
        assert(result.response@ =~= Seq::new(16, |i: int| 0u8));
        assert(result.audio_volume@ =~= seq![0u8, 0u8, 0u8, 0u8]);
        assert(result.applied_audio_volume@ =~= seq![0u8, 0u8, 0u8, 0u8]);
        result
    }

    /// Returns the currently selected register bank.
    pub fn index(&self) -> (result: u8)
        ensures
            result == self.index,
    {
        self.index
    }

    /// Reports whether an enabled CD-ROM interrupt is pending.
    pub fn interrupt_pending(&self) -> (result: bool)
        ensures
            result == (self.interrupt_flags & self.interrupt_enable & 0x1f != 0),
    {
        self.interrupt_flags & self.interrupt_enable & 0x1f != 0
    }

    /// Reads one byte from a physical CD-ROM register address.
    pub fn read_register(&mut self, address: u32) -> (result: Result<u8, CdRomError>)
        requires
            old(self).wf(),
        ensures
            final(self).wf(),
            result == old(self).value_at(address),
            *final(self) == old(self).after_read(address),
    {
        match address {
            CDROM_BASE => {
                let mut status: u8 = self.index;
                if self.parameter_count == 0 {
                    status = status + 0x08;
                }
                if self.parameter_count != FIFO_CAPACITY {
                    status = status + 0x10;
                }
                if self.response_count != 0 {
                    status = status + 0x20;
                }
                Ok(status)
            },
            REG1 => Ok(self.pop_response()),
            REG2 => Ok(0),
            REG3 => match self.index {
                1 | 3 => Ok(0xe0 | self.interrupt_flags),
                _ => Ok(0xe0 | self.interrupt_enable),
            },
            _ => Err(CdRomError::InvalidRegister { address }),
        }
    }

    /// Writes one byte to a physical CD-ROM register address.
    pub fn write_register(&mut self, address: u32, value: u8) -> (result: Result<(), CdRomError>)
        requires
            old(self).wf(),
        ensures
            final(self).wf(),
            result == if CDROM_BASE <= address <= CDROM_END {
                Ok(())
            } else {
                Err(CdRomError::InvalidRegister { address })
            },
            *final(self) == old(self).written(address, value),
    {
        match address {
            CDROM_BASE => {
                self.index = value % 4;
            },
            REG1 => match self.index {
                0 => self.accept_command(value),
                3 => {
                    self.audio_volume[2] = value;
                },
                _ => {},
            },
            REG2 => match self.index {
                0 => {
                    if self.parameter_count < FIFO_CAPACITY {
                        self.parameters[self.parameter_count] = value;
                        self.parameter_count = self.parameter_count + 1;
                    }
                },
                1 => {
                    self.interrupt_enable = value & 0x1f;
                },
                2 => {
                    self.audio_volume[0] = value;
                },
                _ => {
                    self.audio_volume[3] = value;
                },
            },
            REG3 => match self.index {
                0 => {
                    self.request = value;
                },
                1 => {
                    self.interrupt_flags = self.interrupt_flags & !(value & 0x1f);
                    if value & 0x40 != 0 {
                        self.parameter_count = 0;
                    }
                },
                2 => {
                    self.audio_volume[1] = value;
                },
                _ => {
                    if value & 0x20 != 0 {
                        self.applied_audio_volume = self.audio_volume;
                    }
                },
            },
            _ => {
                return Err(CdRomError::InvalidRegister { address });
            },
        }
        Ok(())
    }

    fn accept_command(&mut self, _command: u8)
        ensures
            *final(self) == (CdRom { parameter_count: 0, ..*old(self) }),
    {
        // A PSF machine has no CD medium or sector source. Retaining the command
        // boundary and consuming parameters is sufficient for initialization;
        // media operations cannot contribute audio to the module.
        self.parameter_count = 0;
    }

    fn pop_response(&mut self) -> (result: u8)
        requires
            old(self).wf(),
        ensures
            Ok::<u8, CdRomError>(result) == old(self).value_at(REG1),
            *final(self) == old(self).after_read(REG1),
    {
        if self.response_count == 0 {
            return 0;
        }
        let value: u8 = self.response[self.response_read];
        self.response_read = (self.response_read + 1) % FIFO_CAPACITY;
        self.response_count = self.response_count - 1;
        value
    }
}

impl Default for CdRom {
    fn default() -> (result: Self)
        ensures
            result.at_reset(),
            result.wf(),
    {
        Self::new()
    }
}

/// The applied audio volume changes only by a write to the request register in the last
/// bank with the apply bit set, and is then the latched volume.
pub proof fn law_volume_changes_when_applied(drive: CdRom, address: u32, value: u8)
    requires
        drive.wf(),
    ensures
        drive.written(address, value).applied_audio_volume == if address == REG3 && drive.index
            == 3 && value & 0x20 != 0 {
            drive.audio_volume
        } else {
            drive.applied_audio_volume
        },
{
}

/// In the first bank, a parameter queues behind those that wait while there is room and
/// is dropped otherwise, and a command consumes them all.
pub proof fn law_parameters_queue(drive: CdRom, value: u8)
    requires
        drive.wf(),
        drive.index == 0,
    ensures
        drive.written(REG2, value).pending_parameters() == if drive.pending_parameters().len()
            < 16 {
            drive.pending_parameters().push(value)
        } else {
            drive.pending_parameters()
        },
        drive.written(REG1, value).pending_parameters() == Seq::<u8>::empty(),
{
    assert(drive.parameters@.len() == 16);
    assert(drive.written(REG1, value).pending_parameters() =~= Seq::<u8>::empty());
    if drive.parameter_count < 16 {
        assert(drive.written(REG2, value).pending_parameters()
            =~= drive.pending_parameters().push(value));
    }
}

/// Reading the response register takes the first waiting byte, or zero when none waits.
pub proof fn law_response_is_first_in_first_out(drive: CdRom)
    requires
        drive.wf(),
    ensures
        drive.value_at(REG1) == Ok::<u8, CdRomError>(
            if drive.pending_response().len() > 0 {
                drive.pending_response()[0]
            } else {
                0
            },
        ),
        drive.after_read(REG1).pending_response() == if drive.pending_response().len() > 0 {
            drive.pending_response().skip(1)
        } else {
            drive.pending_response()
        },
{
    if drive.response_count > 0 {
        let after = drive.after_read(REG1);
        assert forall|i: int| 0 <= i < after.response_count implies after.pending_response()[i]
            == drive.pending_response().skip(1)[i] by {
            assert((after.response_read + i) % 16 == (drive.response_read + (i + 1)) % 16);
        }
        assert(after.pending_response() =~= drive.pending_response().skip(1));
    }
}

/// What the interrupt-enable register takes in the second bank reads back in the first,
/// and the flags that are written as ones are acknowledged.
pub proof fn law_interrupt_registers(drive: CdRom, enable: u8, flags: u8)
    requires
        drive.wf(),
        drive.index == 1,
    ensures
        drive.written(REG2, enable).written(CDROM_BASE, 0).value_at(REG3) == Ok::<u8, CdRomError>(
            0xe0 | (enable & 0x1f),
        ),
        drive.written(REG3, flags).interrupt_flags & flags & 0x1f == 0,
{
    let before = drive.interrupt_flags;
    assert((before & !(flags & 0x1f)) & flags & 0x1f == 0u8) by (bit_vector);
}

} // verus!
