//! PS1 interrupt controller.

use upse_hw::ps1::irq::{InterruptController, InterruptSource, IrqError, I_MASK, I_STAT};

#[test]
fn masks_gate_the_cpu_line_without_discarding_status() {
    let mut irq = InterruptController::new();
    irq.request(InterruptSource::Timer0);
    assert_eq!(irq.status(), InterruptSource::Timer0.bit());
    assert!(!irq.pending());
    irq.write(I_MASK, u32::from(InterruptSource::Timer0.bit()))
        .unwrap();
    assert!(irq.pending());
    irq.set_mask(InterruptSource::VBlank.bit());
    assert!(!irq.pending());
    assert_eq!(irq.status(), InterruptSource::Timer0.bit());
}

#[test]
fn zero_acknowledges_and_one_preserves_each_latched_bit() {
    let mut irq = InterruptController::new();
    irq.request(InterruptSource::VBlank);
    irq.request(InterruptSource::Timer0);
    irq.request(InterruptSource::Spu);
    let keep = InterruptSource::Timer0.bit() | InterruptSource::Spu.bit();
    irq.write(I_STAT, u32::from(keep)).unwrap();
    assert_eq!(irq.read(I_STAT).unwrap(), u32::from(keep));
    irq.acknowledge(0);
    assert_eq!(irq.status(), 0);
}

#[test]
fn asserted_levels_reappear_until_the_producer_drops_them() {
    let mut irq = InterruptController::new();
    irq.set_level(InterruptSource::Spu, true);
    irq.acknowledge(0);
    assert_eq!(irq.status(), InterruptSource::Spu.bit());
    irq.set_level(InterruptSource::Spu, false);
    assert_eq!(irq.status(), InterruptSource::Spu.bit());
    irq.acknowledge(0);
    assert_eq!(irq.status(), 0);
}

#[test]
fn simultaneous_sources_and_register_errors_are_deterministic() {
    let mut irq = InterruptController::new();
    for source in [
        InterruptSource::Timer2,
        InterruptSource::VBlank,
        InterruptSource::Timer1,
    ] {
        irq.request(source);
    }
    let expected = InterruptSource::VBlank.bit()
        | InterruptSource::Timer1.bit()
        | InterruptSource::Timer2.bit();
    irq.set_mask(u16::MAX);
    assert_eq!(irq.mask(), 0x07ff);
    assert_eq!(irq.status(), expected);
    assert!(irq.pending());
    assert_eq!(
        irq.read(I_STAT + 2),
        Err(IrqError::InvalidRegister {
            address: I_STAT + 2
        })
    );
}

#[test]
fn writes_outside_the_registers_change_nothing() {
    let mut irq = InterruptController::default();
    irq.request(InterruptSource::Dma);
    assert_eq!(
        irq.write(I_MASK + 4, 0),
        Err(IrqError::InvalidRegister { address: I_MASK + 4 })
    );
    assert_eq!(irq.status(), 1 << 3);
    irq.write(I_MASK, u32::MAX).unwrap();
    assert_eq!(irq.read(I_MASK).unwrap(), 0x07ff);
}
