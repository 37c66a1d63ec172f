//! GPU registers.

use upse_hw::ps1::gpu::{Gpu, GpuError, GP0, GP1, RESET_STATUS, STATUS_DMA_REQUEST, STATUS_IRQ};

#[test]
fn reset_status_and_gp1_reset_are_exact() {
    let mut gpu = Gpu::new();
    assert_eq!(gpu.read_register(GP1).unwrap(), RESET_STATUS);
    gpu.write_register(GP1, 0x0300_0000).unwrap();
    gpu.write_register(GP1, 0x0400_0002).unwrap();
    gpu.write_register(GP1, 0).unwrap();
    assert_eq!(gpu.read_register(GP1).unwrap(), RESET_STATUS);
}

#[test]
fn display_dma_and_irq_commands_update_status() {
    let mut gpu = Gpu::new();
    gpu.write_register(GP1, 0x0300_0000).unwrap();
    assert_eq!(gpu.read_register(GP1).unwrap() & (1 << 23), 0);
    gpu.write_register(GP1, 0x0400_0002).unwrap();
    let status = gpu.read_register(GP1).unwrap();
    assert_eq!((status >> 29) & 3, 2);
    assert_ne!(status & STATUS_DMA_REQUEST, 0);
    gpu.write_register(GP0, 0x1f00_0000).unwrap();
    assert_ne!(gpu.read_register(GP1).unwrap() & STATUS_IRQ, 0);
    gpu.write_register(GP1, 0x0200_0000).unwrap();
    assert_eq!(gpu.read_register(GP1).unwrap() & STATUS_IRQ, 0);
}

#[test]
fn drawing_attributes_are_available_through_info_queries() {
    let mut gpu = Gpu::new();
    gpu.write_register(GP0, 0xe200_1234).unwrap();
    gpu.write_register(GP0, 0xe300_5678).unwrap();
    gpu.write_register(GP1, 0x1000_0002).unwrap();
    assert_eq!(gpu.read_register(GP0).unwrap(), 0x1234);
    gpu.write_register(GP1, 0x1000_0003).unwrap();
    assert_eq!(gpu.read_register(GP0).unwrap(), 0x5678);
}

#[test]
fn dma_direction_gates_the_request_bit() {
    let mut gpu = Gpu::new();
    for (direction, request) in [(0, false), (1, true), (2, true), (3, false)] {
        gpu.write_register(GP1, 0x0400_0000 | direction).unwrap();
        let status = gpu.read_register(GP1).unwrap();
        assert_eq!((status >> 29) & 3, direction);
        assert_eq!(status & STATUS_DMA_REQUEST != 0, request);
    }
}

#[test]
fn draw_and_display_modes_land_in_their_fields() {
    let mut gpu = Gpu::new();
    gpu.write_register(GP0, 0xe100_0fff).unwrap();
    assert_eq!(gpu.read_register(GP1).unwrap(), RESET_STATUS | 0x87ff);
    gpu.write_register(GP0, 0xe600_0003).unwrap();
    assert_eq!(gpu.read_register(GP1).unwrap(), RESET_STATUS | 0x9fff);
    gpu.write_register(GP0, 0xe600_0000).unwrap();
    gpu.write_register(GP0, 0xe100_0000).unwrap();
    gpu.write_register(GP1, 0x0800_00ff).unwrap();
    assert_eq!(gpu.read_register(GP1).unwrap(), 0x14ff_6000);
    gpu.write_register(GP1, 0x0800_0000).unwrap();
    assert_eq!(gpu.read_register(GP1).unwrap(), RESET_STATUS);
}

#[test]
fn every_drawing_attribute_reads_back_masked() {
    let mut gpu = Gpu::new();
    for (command, index, mask) in [
        (0xe2, 2, 0x000f_ffff),
        (0xe3, 3, 0x0007_ffff),
        (0xe4, 4, 0x0007_ffff),
        (0xe5, 5, 0x003f_ffff),
    ] {
        gpu.write_register(GP0, (command << 24) | 0x00ff_ffff).unwrap();
        gpu.write_register(GP1, 0x1f00_0000 | index).unwrap();
        assert_eq!(gpu.read_register(GP0).unwrap(), mask);
    }
    gpu.write_register(GP1, 0x1000_0007).unwrap();
    assert_eq!(gpu.read_register(GP0).unwrap(), 2);
    gpu.write_register(GP1, 0x1000_0000).unwrap();
    assert_eq!(gpu.read_register(GP0).unwrap(), 2);
}

#[test]
fn other_addresses_are_invalid() {
    let mut gpu = Gpu::default();
    assert_eq!(
        gpu.read_register(GP1 + 4),
        Err(GpuError::InvalidRegister { address: GP1 + 4 })
    );
    assert_eq!(
        gpu.write_register(GP0 + 2, 0),
        Err(GpuError::InvalidRegister { address: GP0 + 2 })
    );
    assert_eq!(gpu, Gpu::new());
}
