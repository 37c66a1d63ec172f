//! PS2 IOP subsystem-bus address and delay registers.

use vstd::prelude::*;

use crate::arrays::with;

verus! {

/// Number of SSBUS device selectors.
pub const DEVICE_COUNT: usize = 13;

/// Shared delay-configuration register.
pub const COMMON_DELAY: u32 = 0x1f80_1020;

/// Invalid SSBUS register or device selector.
#[derive(Clone, Copy, Debug, PartialEq, Eq)]
pub enum SsbusError {
    /// The physical address is not an implemented SSBUS register.
    InvalidRegister {
        /// Physical register address.
        address: u32,
    },
    /// The device has no register of the requested kind.
    InvalidDevice {
        /// Numeric SSBUS device selector.
        device: u32,
        /// Register group requested by the caller.
        kind: &'static str,
    },
}

/// Instance-owned subsystem-bus configuration.
#[verifier::ext_equal]
#[derive(Clone, Copy, Debug, PartialEq, Eq)]
pub struct SsbusController {
    pub bases: [u32; 13],
    pub delays: [u32; 13],
    pub common_delay: u32,
}

/// The address of a device's base-address register.
pub open spec fn base_address(device: int) -> Option<u32> {
    if device == 0 {
        Some(0x1f80_1000)
    } else if device == 1 {
        Some(0x1f80_1400)
    } else if device == 4 {
        Some(0x1f80_1404)
    } else if device == 5 {
        Some(0x1f80_1408)
    } else if device == 8 {
        Some(0x1f80_1004)
    } else if device == 9 {
        Some(0x1f80_140c)
    } else if device == 11 {
        Some(0x1f80_1410)
    } else {
        None
    }
}

/// The address of a device's delay register.
pub open spec fn delay_address(device: int) -> Option<u32> {
    if device == 0 {
        Some(0x1f80_1008)
    } else if device == 1 {
        Some(0x1f80_100c)
    } else if device == 2 {
        Some(0x1f80_1010)
    } else if device == 4 {
        Some(0x1f80_1014)
    } else if device == 5 {
        Some(0x1f80_1018)
    } else if device == 8 {
        Some(0x1f80_101c)
    } else if device == 9 {
        Some(0x1f80_1414)
    } else if device == 10 {
        Some(0x1f80_1418)
    } else if device == 11 {
        Some(0x1f80_141c)
    } else if device == 12 {
        Some(0x1f80_1420)
    } else {
        None
    }
}

/// Whether `address` is the base-address register of `device`.
pub open spec fn is_base(device: int, address: u32) -> bool {
    base_address(device) == Some(address)
}

/// Whether `address` is the delay register of `device`.
pub open spec fn is_delay(device: int, address: u32) -> bool {
    delay_address(device) == Some(address)
}

/// A device of whose base address `address` is the register.
pub open spec fn has_base(address: u32) -> bool {
    exists|device: int| is_base(device, address)
}

/// A device of whose delay `address` is the register.
pub open spec fn has_delay(address: u32) -> bool {
    exists|device: int| is_delay(device, address)
}

/// The device of whose base address `address` is the register.
pub open spec fn base_device(address: u32) -> int {
    choose|device: int| is_base(device, address)
}

/// The device of whose delay `address` is the register.
pub open spec fn delay_device(address: u32) -> int {
    choose|device: int| is_delay(device, address)
}

/// No two registers share an address, so every register belongs to one device.
pub proof fn law_registers_are_distinct(left: int, right: int, address: u32)
    ensures
        is_base(left, address) && is_base(right, address) ==> left == right,
        is_delay(left, address) && is_delay(right, address) ==> left == right,
        !(is_base(left, address) && is_delay(right, address)),
        is_base(left, address) || is_delay(left, address) ==> address != COMMON_DELAY,
        is_base(left, address) ==> has_base(address) && base_device(address) == left,
        is_delay(left, address) ==> has_delay(address) && delay_device(address) == left,
{
    if is_base(left, address) {
        assert(is_base(base_device(address), address));
    }
    if is_delay(left, address) {
        assert(is_delay(delay_device(address), address));
    }
}

impl Default for SsbusController {
    fn default() -> (result: Self)
        ensures
            result.at_reset(),
    {
        Self::new()
    }
}

impl SsbusController {
    /// Every register is zero.
    pub open spec fn at_reset(self) -> bool {
        &&& forall|i: int| 0 <= i < 13 ==> #[trigger] self.bases@[i] == 0
        &&& forall|i: int| 0 <= i < 13 ==> #[trigger] self.delays@[i] == 0
        &&& self.common_delay == 0
    }

    /// What a register reads as.
    pub open spec fn value_at(self, address: u32) -> Result<u32, SsbusError> {
        if address == COMMON_DELAY {
            Ok(self.common_delay)
        } else if has_base(address) {
            Ok(self.bases@[base_device(address)])
        } else if has_delay(address) {
            Ok(self.delays@[delay_device(address)])
        } else {
            Err(SsbusError::InvalidRegister { address })
        }
    }

    /// The state after a register write.
    pub open spec fn written(self, address: u32, value: u32) -> SsbusController {
        if address == COMMON_DELAY {
            SsbusController { common_delay: value, ..self }
        } else if has_base(address) {
            SsbusController { bases: with(self.bases, base_device(address), value), ..self }
        } else if has_delay(address) {
            SsbusController { delays: with(self.delays, delay_device(address), value), ..self }
        } else {
            self
        }
    }

    /// The delay of a device, or that it has none.
    pub open spec fn delay_of(self, device: u32) -> Result<u32, SsbusError> {
        if delay_address(device as int) is Some {
            Ok(self.delays@[device as int])
        } else {
            Err(SsbusError::InvalidDevice { device, kind: "delay" })
        }
    }

    /// The base address of a device, or that it has none.
    pub open spec fn base_of(self, device: u32) -> Result<u32, SsbusError> {
        if base_address(device as int) is Some {
            Ok(self.bases@[device as int])
        } else {
            Err(SsbusError::InvalidDevice { device, kind: "base-address" })
        }
    }

    /// Constructs reset register state.
    pub fn new() -> (result: Self)
        ensures
            result.at_reset(),
    {
        Self { bases: [0u32;13], delays: [0u32;13], common_delay: 0 }
    }

    /// Reports whether an aligned word belongs to this component.
    pub fn contains(address: u32) -> (result: bool)
        ensures
            result == (address == COMMON_DELAY || has_base(address) || has_delay(address)),
    {
        if address == COMMON_DELAY {
            return true;
        }
        match base_register(address) {
            Some(_) => true,
            None => match delay_register(address) {
                Some(_) => true,
                None => false,
            },
        }
    }

    /// Reads one aligned physical register.
    pub fn read_u32(&self, address: u32) -> (result: Result<u32, SsbusError>)
        ensures
            result == self.value_at(address),
    {
        if address == COMMON_DELAY {
            return Ok(self.common_delay);
        }
        if let Some(device) = base_register(address) {
            return Ok(self.bases[device]);
        }
        if let Some(device) = delay_register(address) {
            return Ok(self.delays[device]);
        }
        Err(SsbusError::InvalidRegister { address })
    }

    /// Writes one aligned physical register.
    pub fn write_u32(&mut self, address: u32, value: u32) -> (result: Result<(), SsbusError>)
        ensures
            result == match old(self).value_at(address) {
                Ok(_) => Ok(()),
                Err(error) => Err(error),
            },
            *final(self) == old(self).written(address, value),
    {
        if address == COMMON_DELAY {
            self.common_delay = value;
            return Ok(());
        }
        if let Some(device) = base_register(address) {
            self.bases[device] = value;
            return Ok(());
        }
        if let Some(device) = delay_register(address) {
            self.delays[device] = value;
            return Ok(());
        }
        Err(SsbusError::InvalidRegister { address })
    }

    /// Reads a device delay value.
    pub fn delay(&self, device: u32) -> (result: Result<u32, SsbusError>)
        ensures
            result == self.delay_of(device),
    {
        if !has_delay_register(device) {
            return Err(SsbusError::InvalidDevice { device, kind: "delay" });
        }
        Ok(self.delays[device as usize])
    }

    /// Replaces a device delay and returns its old value.
    pub fn set_delay(&mut self, device: u32, value: u32) -> (result: Result<u32, SsbusError>)
        ensures
            result == old(self).delay_of(device),
            *final(self) == if result is Ok {
                SsbusController {
                    delays: with(old(self).delays, device as int, value),
                    ..*old(self)
                }
            } else {
                *old(self)
            },
    {
        if !has_delay_register(device) {
            return Err(SsbusError::InvalidDevice { device, kind: "delay" });
        }
        let before: u32 = self.delays[device as usize];
        self.delays[device as usize] = value;
        Ok(before)
    }

    /// Reads a device base-address value.
    pub fn base(&self, device: u32) -> (result: Result<u32, SsbusError>)
        ensures
            result == self.base_of(device),
    {
        if !has_base_register(device) {
            return Err(SsbusError::InvalidDevice { device, kind: "base-address" });
        }
        Ok(self.bases[device as usize])
    }

    /// Replaces a device base address and returns its old value.
    pub fn set_base(&mut self, device: u32, value: u32) -> (result: Result<u32, SsbusError>)
        ensures
            result == old(self).base_of(device),
            *final(self) == if result is Ok {
                SsbusController {
                    bases: with(old(self).bases, device as int, value),
                    ..*old(self)
                }
            } else {
                *old(self)
            },
    {
        if !has_base_register(device) {
            return Err(SsbusError::InvalidDevice { device, kind: "base-address" });
        }
        let before: u32 = self.bases[device as usize];
        self.bases[device as usize] = value;
        Ok(before)
    }

    /// Reads the shared delay register.
    pub fn common_delay(&self) -> (result: u32)
        ensures
            result == self.common_delay,
    {
        self.common_delay
    }

    /// Replaces the shared delay register and returns its old value.
    pub fn set_common_delay(&mut self, value: u32) -> (result: u32)
        ensures
            result == old(self).common_delay,
            *final(self) == (SsbusController { common_delay: value, ..*old(self) }),
    {
        let before: u32 = self.common_delay;
        self.common_delay = value;
        before
    }
}

fn base_register(address: u32) -> (result: Option<usize>)
    ensures
        match result {
            Some(device) => has_base(address) && base_device(address) == device && device < 13,
            None => !has_base(address),
        },
{
    let device: usize = match address {
        0x1f80_1000 => 0,
        0x1f80_1400 => 1,
        0x1f80_1404 => 4,
        0x1f80_1408 => 5,
        0x1f80_1004 => 8,
        0x1f80_140c => 9,
        0x1f80_1410 => 11,
        _ => {
            return None;
        },
    };
    proof {
        law_registers_are_distinct(device as int, device as int, address);
    }
    Some(device)
}

fn delay_register(address: u32) -> (result: Option<usize>)
    ensures
        match result {
            Some(device) => has_delay(address) && delay_device(address) == device && device < 13,
            None => !has_delay(address),
        },
{
    let device: usize = match address {
        0x1f80_1008 => 0,
        0x1f80_100c => 1,
        0x1f80_1010 => 2,
        0x1f80_1014 => 4,
        0x1f80_1018 => 5,
        0x1f80_101c => 8,
        0x1f80_1414 => 9,
        0x1f80_1418 => 10,
        0x1f80_141c => 11,
        0x1f80_1420 => 12,
        _ => {
            return None;
        },
    };
    proof {
        law_registers_are_distinct(device as int, device as int, address);
    }
    Some(device)
}

fn has_base_register(device: u32) -> (result: bool)
    ensures
        result == (base_address(device as int) is Some),
        result ==> device < 13,
{
    match device {
        0 | 1 | 4 | 5 | 8 | 9 | 11 => true,
        _ => false,
    }
}

fn has_delay_register(device: u32) -> (result: bool)
    ensures
        result == (delay_address(device as int) is Some),
        result ==> device < 13,
{
    match device {
        0 | 1 | 2 | 4 | 5 | 8 | 9 | 10 | 11 | 12 => true,
        _ => false,
    }
}

/// A register that was written reads back, and no other register changes.
pub proof fn law_register_reads_back(
    controller: SsbusController,
    address: u32,
    other: u32,
    value: u32,
)
    requires
        controller.value_at(address) is Ok,
    ensures
        controller.written(address, value).value_at(address) == Ok::<u32, SsbusError>(value),
        other != address ==> controller.written(address, value).value_at(other)
            == controller.value_at(other),
{
    lemma_devices(address);
    lemma_devices(other);
}

proof fn lemma_devices(address: u32)
    ensures
        has_base(address) ==> is_base(base_device(address), address) && 0 <= base_device(address)
            < 13,
        has_delay(address) ==> is_delay(delay_device(address), address) && 0 <= delay_device(
            address,
        ) < 13,
{
}

/// Typed and physical access share one state: a device's base address and delay are the
/// registers at its addresses.
pub proof fn law_typed_access_shares_state(controller: SsbusController, device: u32, value: u32)
    ensures
        base_address(device as int) matches Some(address) ==> controller.value_at(address)
            == controller.base_of(device) && controller.written(address, value).base_of(device)
            == Ok::<u32, SsbusError>(value),
        delay_address(device as int) matches Some(address) ==> controller.value_at(address)
            == controller.delay_of(device) && controller.written(address, value).delay_of(device)
            == Ok::<u32, SsbusError>(value),
{
    if let Some(address) = base_address(device as int) {
        law_registers_are_distinct(device as int, device as int, address);
    }
    if let Some(address) = delay_address(device as int) {
        law_registers_are_distinct(device as int, device as int, address);
        if has_base(address) {
            lemma_devices(address);
            law_registers_are_distinct(base_device(address), device as int, address);
        }
    }
}

} // verus!
