use ham_dos::ps2::{
    classify_device, commands_for_device_write, identify_device_from_replies, parse_ack,
    can_read_data, can_write_data, check_input_buffer_empty, check_output_buffer_full,
    AckType, DeviceType, Ps2Controller, Ps2Error, Ps2Port, Ps2Write,
    CMD_SEND_TO_SECOND_PORT_INPUT_BUFFER, DEVICE_CMD_IDENTIFY, REPLY_CONTROLLER_TEST_PASS,
    REPLY_DEVICE_ACK, REPLY_DEVICE_RESEND,
};

#[test]
fn identification_with_retries() {
    // Two "resend" replies force two retransmissions; the ACK and the
    // response byte then classify a standard two-button mouse.
    let replies = vec![REPLY_DEVICE_RESEND, REPLY_DEVICE_RESEND, REPLY_DEVICE_ACK, 0x00];
    let got = identify_device_from_replies(&replies);
    assert_eq!(got, Ok((DeviceType::Ps2Mouse, 2)));
}

#[test]
fn identification_two_byte_reply() {
    let replies = vec![REPLY_DEVICE_ACK, 0xAB, 0x83];
    assert_eq!(identify_device_from_replies(&replies), Ok((DeviceType::MFKeyboard, 0)));
}

#[test]
fn identification_unknown_device() {
    let replies = vec![REPLY_DEVICE_ACK, 0x42];
    assert_eq!(
        identify_device_from_replies(&replies),
        Err(Ps2Error::UnknownDeviceType(0x42))
    );
}

#[test]
fn identification_without_ack() {
    let replies = vec![0x99];
    assert_eq!(
        identify_device_from_replies(&replies),
        Err(Ps2Error::NotAcknowledged(0x99))
    );
}

#[test]
fn config_byte_rewrite() {
    let mut c = Ps2Controller::new();
    assert!(!c.is_dual_channel);
    // IRQ-enable bits 0 and 1 and translation bit 6 are cleared, bit 4
    // (second-port clock disabled) marks a dual-channel controller, and
    // the remaining bits ride through.
    let r = c.disable_irqs_and_translation(0b1101_0111);
    assert_eq!(r, 0b1001_0100);
    assert!(c.is_dual_channel);

    let r2 = c.disable_irqs_and_translation(0b0100_0011);
    assert_eq!(r2, 0);
    assert!(!c.is_dual_channel);
}

#[test]
fn enable_bits() {
    let mut c = Ps2Controller::new();
    assert_eq!(c.enable_devices_and_translation(0b0001_0100), 0b0101_0100);
    c.disable_irqs_and_translation(0b0001_0000);
    assert!(c.is_dual_channel);
    assert_eq!(c.enable_irqs(0b0100_0000), 0b0100_0011);
    c.disable_irqs_and_translation(0);
    assert_eq!(c.enable_irqs(0b0100_0000), 0b0100_0001);
}

#[test]
fn self_test_reply() {
    let c = Ps2Controller::new();
    assert_eq!(c.self_test_result(REPLY_CONTROLLER_TEST_PASS), Ok(()));
    assert_eq!(c.self_test_result(0xFC), Err(Ps2Error::ControllerSelfTestFailed));
}

#[test]
fn interface_test_reply() {
    let c = Ps2Controller::new();
    assert_eq!(c.interface_test_result(Ps2Port::One, 0), Ok(()));
    assert_eq!(
        c.interface_test_result(Ps2Port::One, 1),
        Err(Ps2Error::FirstPortTestFailed)
    );
    assert_eq!(
        c.interface_test_result(Ps2Port::Two, 3),
        Err(Ps2Error::SecondPortTestFailed)
    );
}

#[test]
fn ack_parsing() {
    assert_eq!(parse_ack(REPLY_DEVICE_RESEND), Ok(AckType::Resend));
    assert_eq!(parse_ack(REPLY_DEVICE_ACK), Ok(AckType::Ack));
    assert_eq!(parse_ack(0x13), Err(Ps2Error::NotAcknowledged(0x13)));
}

#[test]
fn device_classification() {
    assert_eq!(classify_device(0x00), Ok(DeviceType::Ps2Mouse));
    assert_eq!(classify_device(0x03), Ok(DeviceType::MouseScrollWheel));
    assert_eq!(classify_device(0x04), Ok(DeviceType::FiveButtonMouse));
    assert_eq!(classify_device(0x41), Ok(DeviceType::MF2KeyboardWithTranslation));
    assert_eq!(classify_device(0xC1), Ok(DeviceType::MF2KeyboardWithTranslationDup));
    assert_eq!(classify_device(0x83), Ok(DeviceType::MFKeyboard));
    assert_eq!(classify_device(0x11), Err(Ps2Error::UnknownDeviceType(0x11)));
}

#[test]
fn second_port_write_is_routed() {
    let w = commands_for_device_write(Ps2Port::Two, DEVICE_CMD_IDENTIFY);
    assert_eq!(
        w,
        vec![
            Ps2Write::Command(CMD_SEND_TO_SECOND_PORT_INPUT_BUFFER),
            Ps2Write::Data(DEVICE_CMD_IDENTIFY),
        ]
    );
    let w1 = commands_for_device_write(Ps2Port::One, DEVICE_CMD_IDENTIFY);
    assert_eq!(w1, vec![Ps2Write::Data(DEVICE_CMD_IDENTIFY)]);
}

#[test]
fn status_bits() {
    assert!(can_read_data(0b0000_0001));
    assert!(!can_read_data(0b0000_0010));
    assert!(can_write_data(0b0000_0010));
    assert!(!can_write_data(0b0000_0001));
    // The spin conditions: wait for output, wait for input drain.
    assert!(check_output_buffer_full(0b0000_0000));
    assert!(!check_output_buffer_full(0b0000_0001));
    assert!(check_input_buffer_empty(0b0000_0010));
    assert!(!check_input_buffer_empty(0b0000_0001));
}
