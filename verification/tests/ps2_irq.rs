//! PS2 I/O-processor interrupt controller.

use upse_hw::ps2::irq::{
    InterruptController, InterruptSink, InterruptSource, IrqError, I_MASK, I_STAT,
};

#[test]
fn every_primary_source_has_an_independent_bit() {
    let mut irq = InterruptController::new();
    for index in 0..26 {
        let source = InterruptSource::from_index(index).unwrap();
        irq.request(source);
    }
    assert_eq!(irq.status(), 0x03ff_ffff);
    irq.set_mask(u32::MAX);
    assert_eq!(irq.pending_bits(), 0x03ff_ffff);
    assert_eq!(irq.first_pending(), Some(InterruptSource::VBlank));
}

#[test]
fn acknowledge_preserves_asserted_levels() {
    let mut irq = InterruptController::new();
    irq.request(InterruptSource::Timer3);
    irq.set_level(InterruptSource::Spu2, true);
    irq.acknowledge(0);
    assert_eq!(irq.status(), InterruptSource::Spu2.bit());
    irq.set_level(InterruptSource::Spu2, false);
    irq.acknowledge(0);
    assert_eq!(irq.status(), 0);
}

#[test]
fn mask_gates_the_cpu_line_without_losing_status() {
    let mut irq = InterruptController::new();
    irq.request(InterruptSource::Timer5);
    assert!(!irq.pending());
    irq.write(I_MASK, InterruptSource::Timer5.bit()).unwrap();
    assert!(irq.pending());
    irq.write(I_STAT, 0).unwrap();
    assert!(!irq.pending());
    assert_eq!(irq.mask(), InterruptSource::Timer5.bit());
}

#[test]
fn invalid_register_is_diagnostic() {
    let irq = InterruptController::new();
    assert_eq!(
        irq.read(I_MASK + 4),
        Err(IrqError {
            address: I_MASK + 4
        })
    );
}

#[test]
fn each_source_keeps_to_its_own_bit() {
    for index in 0..26 {
        let source = InterruptSource::from_index(index).unwrap();
        let mut irq = InterruptController::default();
        irq.set_mask(u32::MAX);
        irq.request(source);
        assert_eq!(irq.status(), 1 << index);
        assert_eq!(irq.first_pending(), Some(source));
        irq.acknowledge(!source.bit());
        assert_eq!(irq.first_pending(), None);
    }
    assert_eq!(InterruptSource::from_index(26), None);
    let mut irq = InterruptController::new();
    assert_eq!(
        irq.write(I_STAT - 4, 0),
        Err(IrqError {
            address: I_STAT - 4
        })
    );
}
