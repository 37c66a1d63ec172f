//! MDEC registers.

use upse_hw::ps1::dma::MdecDmaEndpoint;
use upse_hw::ps1::mdec::{
    Mdec, MdecError, MDEC_CONTROL_STATUS, MDEC_DATA, RESET_STATUS, STATUS_COMMAND_BUSY,
    STATUS_DATA_IN_REQUEST,
};

#[test]
fn reset_status_and_dma_requests_are_exact() {
    let mut mdec = Mdec::new();
    assert_eq!(mdec.read_register(MDEC_CONTROL_STATUS), Ok(RESET_STATUS));

    mdec.write_register(MDEC_CONTROL_STATUS, 0x6000_0000)
        .unwrap();
    assert!(mdec.dma_in_enabled());
    assert!(mdec.dma_out_enabled());
    assert_eq!(
        mdec.read_register(MDEC_CONTROL_STATUS),
        Ok(RESET_STATUS | STATUS_DATA_IN_REQUEST)
    );

    mdec.write_register(MDEC_CONTROL_STATUS, 0x8000_0000)
        .unwrap();
    assert!(!mdec.dma_in_enabled());
    assert!(!mdec.dma_out_enabled());
    assert_eq!(mdec.read_register(MDEC_CONTROL_STATUS), Ok(RESET_STATUS));
}

#[test]
fn macroblock_data_and_invalid_addresses_remain_diagnostic() {
    let mut mdec = Mdec::new();
    assert_eq!(
        mdec.read_register(MDEC_DATA),
        Err(MdecError::MacroblockOutputUnavailable)
    );
    assert_eq!(
        mdec.write_register(MDEC_DATA, 0x2000_0001),
        Err(MdecError::MacroblockDecodeUnavailable {
            command: 0x2000_0001
        })
    );
    assert_eq!(
        mdec.read_register(MDEC_CONTROL_STATUS + 4),
        Err(MdecError::InvalidRegister {
            address: MDEC_CONTROL_STATUS + 4
        })
    );
}

#[test]
fn initialization_table_commands_consume_exact_word_counts() {
    let mut mdec = Mdec::new();
    mdec.write_register(MDEC_DATA, 0x4000_0001).unwrap();
    assert_eq!(mdec.parameter_words_remaining(), 32);
    assert_eq!(
        mdec.read_register(MDEC_CONTROL_STATUS).unwrap() & (STATUS_COMMAND_BUSY | 0xffff),
        STATUS_COMMAND_BUSY | 31
    );
    for word in 0..32 {
        mdec.write_register(MDEC_DATA, word).unwrap();
    }
    assert_eq!(mdec.parameter_words_remaining(), 0);
    assert_eq!(mdec.read_register(MDEC_CONTROL_STATUS), Ok(RESET_STATUS));

    mdec.write_register(MDEC_DATA, 0x6000_0000).unwrap();
    assert_eq!(mdec.parameter_words_remaining(), 32);
    for word in 0..32 {
        mdec.write_register(MDEC_DATA, word).unwrap();
    }
    assert_eq!(mdec.read_register(MDEC_CONTROL_STATUS), Ok(RESET_STATUS));
}

#[test]
fn a_luminance_only_table_takes_sixteen_words() {
    let mut mdec = Mdec::default();
    mdec.write_register(MDEC_DATA, 0x4000_0000).unwrap();
    for remaining in (0..16_u16).rev() {
        mdec.write_register(MDEC_DATA, 0x2000_0000).unwrap();
        assert_eq!(mdec.parameter_words_remaining(), remaining);
    }
}

#[test]
fn refused_commands_change_nothing_and_explain_themselves() {
    let mut mdec = Mdec::new();
    let error = mdec.write_register(MDEC_DATA, 0xe000_0007).unwrap_err();
    assert_eq!(
        error,
        MdecError::UnsupportedCommand {
            command: 0xe000_0007
        }
    );
    assert_eq!(mdec, Mdec::new());
    assert_eq!(error.message(), "unsupported PS1 MDEC command 0xe0000007");
    assert_eq!(
        MdecError::MacroblockOutputUnavailable.message(),
        "PS1 MDEC macroblock output is unavailable"
    );
    assert_eq!(
        MdecError::InvalidRegister { address: 0x1f }.message(),
        "invalid PS1 MDEC register address 0x0000001f"
    );
    assert_eq!(
        mdec.write_word(0x2000_0001).unwrap_err().message(),
        "PS1 MDEC macroblock decode command 0x20000001 is unavailable"
    );
    assert_eq!(mdec.write_word(0x6000_0000), Ok(()));
    assert_eq!(mdec.parameter_words_remaining(), 32);
    assert_eq!(
        mdec.write_register(MDEC_DATA - 4, 0),
        Err(MdecError::InvalidRegister {
            address: MDEC_DATA - 4
        })
    );
}
