//! PS1 MDEC control and status registers for audio-oriented machine composition.
//!
//! The component models reset, DMA request control, and initialization-table
//! command consumption. Macroblock decoding is intentionally unavailable
//! because decoded video has no observable effect on PSF playback.

use vstd::prelude::*;

use crate::ps1::dma::{EndpointError, MdecDmaEndpoint};
use crate::text::{address_text, push_address};

verus! {

/// MDEC command, parameter, and output-data port.
pub const MDEC_DATA: u32 = 0x1f80_1820;

/// MDEC control-write and status-read port.
pub const MDEC_CONTROL_STATUS: u32 = 0x1f80_1824;

/// First physical MDEC register address.
pub const MDEC_BASE: u32 = MDEC_DATA;

/// Final physical MDEC register address, inclusive.
pub const MDEC_END: u32 = MDEC_CONTROL_STATUS + 3;

/// Reset bit in the control register.
pub const CONTROL_RESET: u32 = 0x8000_0000;

/// Input DMA enable bit in the control register.
pub const CONTROL_DMA_IN_ENABLE: u32 = 0x4000_0000;

/// Output DMA enable bit in the control register.
pub const CONTROL_DMA_OUT_ENABLE: u32 = 0x2000_0000;

/// Output-empty bit in the status register.
pub const STATUS_DATA_OUT_EMPTY: u32 = 0x8000_0000;

/// Command-busy bit in the status register.
pub const STATUS_COMMAND_BUSY: u32 = 0x2000_0000;

/// Input-request bit in the status register.
pub const STATUS_DATA_IN_REQUEST: u32 = 0x1000_0000;

/// Current block field of the status register after reset.
pub const STATUS_RESET_BLOCK: u32 = 0x0004_0000;

/// Status register after reset.
pub const RESET_STATUS: u32 = 0x8004_ffff;

/// Invalid or unavailable MDEC operation.
#[derive(Clone, Copy, Debug, PartialEq, Eq, Structural)]
pub enum MdecError {
    /// Address is outside the two 32-bit MDEC ports.
    InvalidRegister {
        /// Physical register address.
        address: u32,
    },
    /// Audio-oriented composition cannot produce decoded macroblock data.
    MacroblockOutputUnavailable,
    /// Audio-oriented composition cannot execute a video decode command.
    MacroblockDecodeUnavailable {
        /// Rejected command word.
        command: u32,
    },
    /// Command selector is not defined by the MDEC hardware.
    UnsupportedCommand {
        /// Rejected command word.
        command: u32,
    },
}

impl MdecError {
    /// The diagnostic text.
    pub open spec fn text(self) -> Seq<char> {
        match self {
            MdecError::InvalidRegister { address } => "invalid PS1 MDEC register address "@
                + address_text(address),
            MdecError::MacroblockOutputUnavailable => "PS1 MDEC macroblock output is unavailable"@,
            MdecError::MacroblockDecodeUnavailable { command } =>
                "PS1 MDEC macroblock decode command "@ + address_text(command)
                    + " is unavailable"@,
            MdecError::UnsupportedCommand { command } => "unsupported PS1 MDEC command "@
                + address_text(command),
        }
    }

    /// Returns the diagnostic text.
    pub fn message(&self) -> (result: String)
        ensures
            result@ == self.text(),
    {
        match self {
            MdecError::InvalidRegister { address } => {
                let mut text = String::from_str("invalid PS1 MDEC register address ");
                push_address(&mut text, *address);
                text
            },
            MdecError::MacroblockOutputUnavailable => {
                String::from_str("PS1 MDEC macroblock output is unavailable")
            },
            MdecError::MacroblockDecodeUnavailable { command } => {
                let mut text = String::from_str("PS1 MDEC macroblock decode command ");
                push_address(&mut text, *command);
                text.append(" is unavailable");
                text
            },
            MdecError::UnsupportedCommand { command } => {
                let mut text = String::from_str("unsupported PS1 MDEC command ");
                push_address(&mut text, *command);
                text
            },
        }
    }
}

/// Instance-owned PS1 MDEC control-plane state.
#[derive(Clone, Copy, Debug, PartialEq, Eq, Structural)]
pub struct Mdec {
    pub dma_in_enabled: bool,
    pub dma_out_enabled: bool,
    pub parameter_words_remaining: u16,
}

impl Mdec {
    /// The post-reset state.
    pub open spec fn at_reset() -> Mdec {
        Mdec { dma_in_enabled: false, dma_out_enabled: false, parameter_words_remaining: 0 }
    }

    /// The status register.
    pub open spec fn status_value(self) -> u32 {
        let base = if self.parameter_words_remaining == 0 {
            RESET_STATUS
        } else {
            STATUS_DATA_OUT_EMPTY | STATUS_COMMAND_BUSY | STATUS_RESET_BLOCK | (
            self.parameter_words_remaining - 1) as u32
        };
        base | if self.dma_in_enabled {
            STATUS_DATA_IN_REQUEST
        } else {
            0
        }
    }

    /// The state after a control write; a reset comes before the enable bits.
    pub open spec fn controlled(self, value: u32) -> Mdec {
        Mdec {
            dma_in_enabled: value & CONTROL_DMA_IN_ENABLE != 0,
            dma_out_enabled: value & CONTROL_DMA_OUT_ENABLE != 0,
            parameter_words_remaining: if value & CONTROL_RESET != 0 {
                0
            } else {
                self.parameter_words_remaining
            },
        }
    }

    /// Whether a word is taken by the data port: as a parameter, or as a command that
    /// loads a table.
    pub open spec fn data_outcome(self, value: u32) -> Result<(), MdecError> {
        let command = value / 0x2000_0000;
        if self.parameter_words_remaining != 0 || command == 2 || command == 3 {
            Ok(())
        } else if command == 1 {
            Err(MdecError::MacroblockDecodeUnavailable { command: value })
        } else {
            Err(MdecError::UnsupportedCommand { command: value })
        }
    }

    /// The state after a word was offered to the data port.
    pub open spec fn fed(self, value: u32) -> Mdec {
        let command = value / 0x2000_0000;
        Mdec {
            parameter_words_remaining: if self.parameter_words_remaining != 0 {
                (self.parameter_words_remaining - 1) as u16
            } else if command == 2 {
                if value % 2 == 0 {
                    16
                } else {
                    32
                }
            } else if command == 3 {
                32
            } else {
                0
            },
            ..self
        }
    }

    /// Constructs the post-reset MDEC state.
    pub fn new() -> (result: Self)
        ensures
            result == Mdec::at_reset(),
    {
        Self { dma_in_enabled: false, dma_out_enabled: false, parameter_words_remaining: 0 }
    }

    /// Reads the MDEC status register.
    ///
    /// The macroblock data port is unavailable.
    pub fn read_register(&self, address: u32) -> (result: Result<u32, MdecError>)
        ensures
            result == if address == MDEC_CONTROL_STATUS {
                Ok(self.status_value())
            } else if address == MDEC_DATA {
                Err(MdecError::MacroblockOutputUnavailable)
            } else {
                Err(MdecError::InvalidRegister { address })
            },
    {
        match address {
            MDEC_CONTROL_STATUS => Ok(self.status()),
            MDEC_DATA => Err(MdecError::MacroblockOutputUnavailable),
            _ => Err(MdecError::InvalidRegister { address }),
        }
    }

    /// Writes the MDEC command/data or control register.
    ///
    /// Reset clears prior state before the DMA-enable bits from the same word
    /// are applied, matching the hardware register ordering.
    pub fn write_register(&mut self, address: u32, value: u32) -> (result: Result<(), MdecError>)
        ensures
            result == if address == MDEC_CONTROL_STATUS {
                Ok(())
            } else if address == MDEC_DATA {
                old(self).data_outcome(value)
            } else {
                Err(MdecError::InvalidRegister { address })
            },
            *final(self) == if address == MDEC_CONTROL_STATUS {
                old(self).controlled(value)
            } else if address == MDEC_DATA {
                old(self).fed(value)
            } else {
                *old(self)
            },
    {
        match address {
            MDEC_CONTROL_STATUS => {
                if value & CONTROL_RESET != 0 {
                    *self = Self::new();
                }
                self.dma_in_enabled = value & CONTROL_DMA_IN_ENABLE != 0;
                self.dma_out_enabled = value & CONTROL_DMA_OUT_ENABLE != 0;
                Ok(())
            },
            MDEC_DATA => self.write_data(value),
            _ => Err(MdecError::InvalidRegister { address }),
        }
    }

    /// Reports whether MDEC input DMA requests are enabled.
    pub fn dma_in_enabled(&self) -> (result: bool)
        ensures
            result == self.dma_in_enabled,
    {
        self.dma_in_enabled
    }

    /// Reports whether MDEC output DMA requests are enabled.
    pub fn dma_out_enabled(&self) -> (result: bool)
        ensures
            result == self.dma_out_enabled,
    {
        self.dma_out_enabled
    }

    /// Returns the number of initialization-table parameter words still needed.
    pub fn parameter_words_remaining(&self) -> (result: u16)
        ensures
            result == self.parameter_words_remaining,
    {
        self.parameter_words_remaining
    }

    fn write_data(&mut self, value: u32) -> (result: Result<(), MdecError>)
        ensures
            result == old(self).data_outcome(value),
            *final(self) == old(self).fed(value),
    {
        if self.parameter_words_remaining != 0 {
            self.parameter_words_remaining = self.parameter_words_remaining - 1;
            return Ok(());
        }
        match value / 0x2000_0000 {
            1 => Err(MdecError::MacroblockDecodeUnavailable { command: value }),
            2 => {
                self.parameter_words_remaining = if value % 2 == 0 {
                    16
                } else {
                    32
                };
                Ok(())
            },
            3 => {
                self.parameter_words_remaining = 32;
                Ok(())
            },
            _ => Err(MdecError::UnsupportedCommand { command: value }),
        }
    }

    fn status(self) -> (result: u32)
        ensures
            result == self.status_value(),
    {
        let base: u32 = if self.parameter_words_remaining == 0 {
            RESET_STATUS
        } else {
            STATUS_DATA_OUT_EMPTY | STATUS_COMMAND_BUSY | STATUS_RESET_BLOCK | u32::from(
                self.parameter_words_remaining - 1,
            )
        };
        base | if self.dma_in_enabled {
            STATUS_DATA_IN_REQUEST
        } else {
            0
        }
    }
}

impl Default for Mdec {
    fn default() -> (result: Self)
        ensures
            result == Mdec::at_reset(),
    {
        Self::new()
    }
}

impl MdecDmaEndpoint for Mdec {
    open spec fn accepted(
        before: Self,
        value: u32,
        result: Result<(), EndpointError>,
        after: Self,
    ) -> bool {
        &&& after == before.fed(value)
        &&& match before.data_outcome(value) {
            Ok(_) => result is Ok,
            Err(error) => result matches Err(fault) && fault.message@ == error.text(),
        }
    }

    fn write_word(&mut self, value: u32) -> (result: Result<(), EndpointError>) {
        match self.write_register(MDEC_DATA, value) {
            Ok(_) => Ok(()),
            Err(error) => Err(EndpointError { message: error.message() }),
        }
    }
}

/// The state after the words were offered to the data port one by one.
pub open spec fn fed_all(mdec: Mdec, words: Seq<u32>) -> Mdec
    decreases words.len(),
{
    if words.len() == 0 {
        mdec
    } else {
        fed_all(mdec, words.drop_last()).fed(words.last())
    }
}

/// A table command consumes exactly its parameter words, whatever they hold, and the
/// port is then ready for the next command.
pub proof fn law_table_consumes_exact_words(mdec: Mdec, command: u32, words: Seq<u32>)
    requires
        mdec.parameter_words_remaining == 0,
        command / 0x2000_0000 == 2 || command / 0x2000_0000 == 3,
        words.len() <= if command / 0x2000_0000 == 2 && command % 2 == 0 {
            16int
        } else {
            32
        },
    ensures
        mdec.data_outcome(command) is Ok,
        fed_all(mdec.fed(command), words) == (Mdec {
            parameter_words_remaining: ((if command / 0x2000_0000 == 2 && command % 2 == 0 {
                16int
            } else {
                32
            }) - words.len()) as u16,
            ..mdec
        }),
    decreases words.len(),
{
    if words.len() > 0 {
        law_table_consumes_exact_words(mdec, command, words.drop_last());
    }
}

/// A command that is refused changes nothing.
pub proof fn law_refused_command_changes_nothing(mdec: Mdec, value: u32)
    requires
        mdec.data_outcome(value) is Err,
    ensures
        mdec.fed(value) == mdec,
{
}

} // verus!
