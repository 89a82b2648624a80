//! PS/2 controller bring-up protocol.
//!
//! The controller is driven over two 8-bit I/O ports (command/status and
//! data). The binary around this library owns the ports; every decision the
//! protocol takes — what to write, how to read a status bit, how to rewrite
//! the configuration byte, whether a test reply means failure, how to
//! classify a device identification reply — is a function here, verified
//! against the handshake that the bring-up sequence mandates:
//!
//! 1. disable both devices; 2. flush the stale output byte; 3. read the
//! configuration byte, clear the IRQ-enable and translation bits, detect
//! dual-channel support; 4. controller self-test (fatal on failure) and
//! configuration rewrite; 5. interface-test each present port (fatal on
//! failure); 6. enable the devices and translation, IRQs last.
//!
//! Device identification sends "identify", retransmits on every "resend"
//! reply, and classifies the response byte (two bytes when the first is the
//! two-byte marker). Every protocol violation is a fatal error: bring-up
//! has no degraded mode.

use vstd::prelude::*;

verus! {

pub const CMD_READ_CONFIG_BYTE: u8 = 0x20;
pub const CMD_WRITE_CONFIG_BYTE: u8 = 0x60;
pub const CMD_ENABLE_FIRST_PORT: u8 = 0xAE;
pub const CMD_DISABLE_FIRST_PORT: u8 = 0xAD;
pub const CMD_ENABLE_SECOND_PORT: u8 = 0xA8;
pub const CMD_DISABLE_SECOND_PORT: u8 = 0xA7;
pub const CMD_TEST_PS2_CONTROLLER: u8 = 0xAA;
pub const CMD_TEST_PS2_FIRST_PORT: u8 = 0xAB;
pub const CMD_TEST_PS2_SECOND_PORT: u8 = 0xA9;
pub const DEVICE_CMD_DISABLE_SCANNING: u8 = 0xF5;
pub const DEVICE_CMD_IDENTIFY: u8 = 0xF2;
/// Routes the byte written next to the second device's input buffer.
pub const CMD_SEND_TO_SECOND_PORT_INPUT_BUFFER: u8 = 0xD4;
pub const PORT_NO_COMMAND: u16 = 0x64;
pub const PORT_NO_DATA: u16 = 0x60;
pub const REPLY_CONTROLLER_TEST_PASS: u8 = 0x55;
pub const REPLY_DEVICE_ACK: u8 = 0xFA;
pub const REPLY_DEVICE_RESEND: u8 = 0xFE;
/// First byte of a two-byte identification reply.
pub const REPLY_TWO_BYTE_MARKER: u8 = 0xAB;

#[derive(Debug, Copy, Clone, Eq, PartialEq, Structural)]
pub enum Ps2Port {
    One,
    Two,
}

#[derive(Debug, Copy, Clone, Eq, PartialEq, Structural)]
pub enum AckType {
    Resend,
    Ack,
}

/// Classification of a device identification reply.
#[derive(Debug, Copy, Clone, Eq, PartialEq, Structural)]
pub enum DeviceType {
    Ps2Mouse,
    MouseScrollWheel,
    FiveButtonMouse,
    MF2KeyboardWithTranslation,
    MF2KeyboardWithTranslationDup,
    MFKeyboard,
}

/// The conditions that the bring-up treats as fatal: there is no degraded
/// mode, the caller halts the machine on any of these.
#[derive(Debug, Copy, Clone, Eq, PartialEq, Structural)]
pub enum Ps2Error {
    ControllerSelfTestFailed,
    FirstPortTestFailed,
    SecondPortTestFailed,
    /// The device answered something other than ACK or "resend".
    NotAcknowledged(u8),
    /// The identification byte matches no known device.
    UnknownDeviceType(u8),
}

/// A single port write of the handshake, as the binary must issue it.
#[derive(Debug, Copy, Clone, Eq, PartialEq, Structural)]
pub enum Ps2Write {
    /// To the command port.
    Command(u8),
    /// To the data port, after waiting for "input buffer empty".
    Data(u8),
}

/// Protocol state of the controller that survives between calls: whether
/// step 3 of the bring-up found a second channel.
#[derive(Debug, Copy, Clone, Eq, PartialEq, Structural)]
pub struct Ps2Controller {
    pub is_dual_channel: bool,
}

/// The device a given identification byte stands for, if any.
pub open spec fn spec_classify(response: u8) -> Option<DeviceType> {
    if response == 0x00 {
        Some(DeviceType::Ps2Mouse)
    } else if response == 0x03 {
        Some(DeviceType::MouseScrollWheel)
    } else if response == 0x04 {
        Some(DeviceType::FiveButtonMouse)
    } else if response == 0x41 {
        Some(DeviceType::MF2KeyboardWithTranslation)
    } else if response == 0xC1 {
        Some(DeviceType::MF2KeyboardWithTranslationDup)
    } else if response == 0x83 {
        Some(DeviceType::MFKeyboard)
    } else {
        None
    }
}

/// How many "resend" replies stand at the front of a reply script; each
/// one makes the sender retransmit the identify command.
pub open spec fn leading_resends(s: Seq<u8>) -> nat
    decreases s.len(),
{
    if s.len() > 0 && s[0] == REPLY_DEVICE_RESEND {
        (1 + leading_resends(s.skip(1))) as nat
    } else {
        0
    }
}

/// The script holds every byte the protocol will ask for: the
/// acknowledgement after the resends, and behind an ACK the response byte
/// (two of them when the first is the two-byte marker). A script that ends
/// earlier would leave the protocol waiting on the data port forever.
pub open spec fn identify_replies_complete(s: Seq<u8>) -> bool {
    let k = leading_resends(s) as int;
    &&& k < s.len()
    &&& (s[k] == REPLY_DEVICE_ACK ==> k + 1 < s.len() && (s[k + 1] == REPLY_TWO_BYTE_MARKER
        ==> k + 2 < s.len()))
}

/// Index of the identification byte that is classified: the byte after the
/// acknowledgement, or the one after that when a two-byte reply is marked.
pub open spec fn spec_identify_response_index(s: Seq<u8>) -> int {
    let k = leading_resends(s) as int;
    if s[k + 1] == REPLY_TWO_BYTE_MARKER {
        k + 2
    } else {
        k + 1
    }
}

/// Outcome of the identification exchange on a reply script: the
/// classified device and the number of retransmissions, or the fatal
/// protocol violation.
pub open spec fn spec_identify(s: Seq<u8>) -> Result<(DeviceType, usize), Ps2Error>
    recommends
        identify_replies_complete(s),
{
    let k = leading_resends(s) as int;
    if s[k] != REPLY_DEVICE_ACK {
        Err(Ps2Error::NotAcknowledged(s[k]))
    } else {
        let response = s[spec_identify_response_index(s)];
        match spec_classify(response) {
            Some(device) => Ok((device, leading_resends(s) as usize)),
            None => Err(Ps2Error::UnknownDeviceType(response)),
        }
    }
}

proof fn lemma_leading_resends_at(s: Seq<u8>, i: int)
    requires
        0 <= i <= s.len(),
        forall|j: int| 0 <= j < i ==> s[j] == REPLY_DEVICE_RESEND,
        i == s.len() || s[i] != REPLY_DEVICE_RESEND,
    ensures
        leading_resends(s) == i,
    decreases i,
{
    if i == 0 {
    } else {
        assert(s[0] == REPLY_DEVICE_RESEND);
        let t = s.skip(1);
        assert forall|j: int| 0 <= j < i - 1 implies t[j] == REPLY_DEVICE_RESEND by {
            assert(t[j] == s[j + 1]);
        }
        if i - 1 < t.len() {
            assert(t[i - 1] == s[i]);
        }
        lemma_leading_resends_at(t, i - 1);
    }
}

proof fn lemma_leading_resends_lower(s: Seq<u8>, i: int)
    requires
        0 <= i <= s.len(),
        forall|j: int| 0 <= j < i ==> s[j] == REPLY_DEVICE_RESEND,
    ensures
        leading_resends(s) >= i,
    decreases i,
{
    if i > 0 {
        let t = s.skip(1);
        assert forall|j: int| 0 <= j < i - 1 implies t[j] == REPLY_DEVICE_RESEND by {
            assert(t[j] == s[j + 1]);
        }
        lemma_leading_resends_lower(t, i - 1);
    }
}

impl Ps2Controller {
    /// A controller before bring-up: dual-channel support is unknown and
    /// assumed absent until step 3 of the handshake detects it.
    pub fn new() -> (r: Ps2Controller)
        ensures
            r.is_dual_channel == false,
    {
        Ps2Controller { is_dual_channel: false }
    }

    /// Step 3 of the bring-up, on the configuration byte just read: clear
    /// the two IRQ-enable bits and the translation bit, and record whether
    /// the second port's clock-disable bit shows a second channel. Returns
    /// the byte to write back; all unrelated bits are preserved.
    pub fn disable_irqs_and_translation(&mut self, config: u8) -> (r: u8)
        ensures
            r == config & 0xBC,
            r & 0x01 == 0 && r & 0x02 == 0 && r & 0x40 == 0,
            r & 0xBC == config & 0xBC,
            final(self).is_dual_channel == (config & 0x10 != 0),
    {
        let new_config = config & 0b10111100;
        assert((config & 0xBC) & 0x01 == 0 && (config & 0xBC) & 0x02 == 0 && (config & 0xBC)
            & 0x40 == 0 && (config & 0xBC) & 0xBC == config & 0xBC && config & 0b10111100 == config
            & 0xBC) by (bit_vector);

        // Second PS/2 port clock: 1 = disabled, present only on a
        // dual-channel controller.
        if (config & 0x10) != 0 {
            self.is_dual_channel = true;
        } else {
            self.is_dual_channel = false;
        }

        new_config
    }

    /// Step 6, first half: the configuration byte that re-enables
    /// translation, leaving every other bit as read.
    pub fn enable_devices_and_translation(&self, config: u8) -> (r: u8)
        ensures
            r == config | 0x40,
    {
        config | 0b01000000
    }

    /// Step 6, second half, deliberately after the whole handshake: the
    /// configuration byte with the IRQ-enable bits set — both ports on a
    /// dual-channel controller, the first port alone otherwise.
    pub fn enable_irqs(&self, config: u8) -> (r: u8)
        ensures
            self.is_dual_channel ==> r == config | 0x03,
            !self.is_dual_channel ==> r == config | 0x01,
    {
        if self.is_dual_channel {
            config | 0b00000011
        } else {
            config | 0b00000001
        }
    }

    /// Step 4: the controller's self-test reply, pass or fatal.
    pub fn self_test_result(&self, reply: u8) -> (r: Result<(), Ps2Error>)
        ensures
            reply == REPLY_CONTROLLER_TEST_PASS <==> r == Ok::<(), Ps2Error>(()),
            reply != REPLY_CONTROLLER_TEST_PASS ==> r == Err::<(), Ps2Error>(
                Ps2Error::ControllerSelfTestFailed,
            ),
    {
        if reply == REPLY_CONTROLLER_TEST_PASS {
            Ok(())
        } else {
            Err(Ps2Error::ControllerSelfTestFailed)
        }
    }

    /// Step 5: a port's interface-test reply — zero passes, anything else
    /// is fatal for that port.
    pub fn interface_test_result(&self, port: Ps2Port, reply: u8) -> (r: Result<(), Ps2Error>)
        ensures
            reply == 0 <==> r == Ok::<(), Ps2Error>(()),
            reply != 0 && port == Ps2Port::One ==> r == Err::<(), Ps2Error>(
                Ps2Error::FirstPortTestFailed,
            ),
            reply != 0 && port == Ps2Port::Two ==> r == Err::<(), Ps2Error>(
                Ps2Error::SecondPortTestFailed,
            ),
    {
        if reply == 0 {
            Ok(())
        } else {
            match port {
                Ps2Port::One => Err(Ps2Error::FirstPortTestFailed),
                Ps2Port::Two => Err(Ps2Error::SecondPortTestFailed),
            }
        }
    }
}

/// Bit 0 of the status byte: the output buffer holds a byte to read.
pub fn can_read_data(status: u8) -> (r: bool)
    ensures
        r == (status & 0x01 != 0),
{
    (status & 0x1) != 0
}

/// Bit 1 of the status byte: the input buffer is still full, so the
/// controller is not ready for a write yet.
pub fn can_write_data(status: u8) -> (r: bool)
    ensures
        r == (status & 0x02 != 0),
{
    assert(status & 0x1u8 << 1 == status & 0x02) by (bit_vector);
    (status & 0x1u8 << 1) != 0
}

/// Condition of the "wait till output buffer full" spin: keep spinning
/// while the output buffer is still empty.
pub fn check_output_buffer_full(status: u8) -> (r: bool)
    ensures
        r == (status & 0x01 == 0),
{
    (status & 0x1) == 0
}

/// Condition of the "wait till input buffer empty" spin: keep spinning
/// while the input buffer is still full.
pub fn check_input_buffer_empty(status: u8) -> (r: bool)
    ensures
        r == (status & 0x02 != 0),
{
    assert(status & 0x1u8 << 1 == status & 0x02) by (bit_vector);
    (status & 0x1u8 << 1) != 0
}

/// Classify one reply to a device command: "resend", ACK, or — fatally —
/// anything else.
pub fn parse_ack(response: u8) -> (r: Result<AckType, Ps2Error>)
    ensures
        response == REPLY_DEVICE_RESEND ==> r == Ok::<AckType, Ps2Error>(AckType::Resend),
        response == REPLY_DEVICE_ACK ==> r == Ok::<AckType, Ps2Error>(AckType::Ack),
        response != REPLY_DEVICE_RESEND && response != REPLY_DEVICE_ACK ==> r == Err::<
            AckType,
            Ps2Error,
        >(Ps2Error::NotAcknowledged(response)),
{
    if response == REPLY_DEVICE_RESEND {
        Ok(AckType::Resend)
    } else if response == REPLY_DEVICE_ACK {
        Ok(AckType::Ack)
    } else {
        Err(Ps2Error::NotAcknowledged(response))
    }
}

/// Map one identification byte to its device classification; an
/// unrecognized byte is fatal.
pub fn classify_device(response: u8) -> (r: Result<DeviceType, Ps2Error>)
    ensures
        spec_classify(response) is Some ==> r == Ok::<DeviceType, Ps2Error>(
            spec_classify(response)->Some_0,
        ),
        spec_classify(response) is None ==> r == Err::<DeviceType, Ps2Error>(
            Ps2Error::UnknownDeviceType(response),
        ),
{
    match response {
        0x00 => Ok(DeviceType::Ps2Mouse),
        0x03 => Ok(DeviceType::MouseScrollWheel),
        0x04 => Ok(DeviceType::FiveButtonMouse),
        0x41 => Ok(DeviceType::MF2KeyboardWithTranslation),
        0xC1 => Ok(DeviceType::MF2KeyboardWithTranslationDup),
        0x83 => Ok(DeviceType::MFKeyboard),
        _ => Err(Ps2Error::UnknownDeviceType(response)),
    }
}

/// The port writes that send one byte to a device: the first port takes it
/// on the data port directly, the second behind the routing command.
pub fn commands_for_device_write(port: Ps2Port, cmd: u8) -> (r: Vec<Ps2Write>)
    ensures
        port == Ps2Port::One ==> r@ == seq![Ps2Write::Data(cmd)],
        port == Ps2Port::Two ==> r@ == seq![
            Ps2Write::Command(CMD_SEND_TO_SECOND_PORT_INPUT_BUFFER),
            Ps2Write::Data(cmd),
        ],
{
    let mut writes: Vec<Ps2Write> = Vec::new();
    match port {
        Ps2Port::One => {
            writes.push(Ps2Write::Data(cmd));
            assert(writes@ =~= seq![Ps2Write::Data(cmd)]);
        },
        Ps2Port::Two => {
            writes.push(Ps2Write::Command(CMD_SEND_TO_SECOND_PORT_INPUT_BUFFER));
            writes.push(Ps2Write::Data(cmd));
            assert(writes@ =~= seq![
                Ps2Write::Command(CMD_SEND_TO_SECOND_PORT_INPUT_BUFFER),
                Ps2Write::Data(cmd),
            ]);
        },
    }
    writes
}

/// The identification exchange replayed over the device's replies, in the
/// order the data port yields them: every leading "resend" makes the
/// identify command go out again; the acknowledgement must follow, then
/// the response byte — a second one when the first is the two-byte marker
/// — which is classified. Returns the device and how many retransmissions
/// the resends forced.
pub fn identify_device_from_replies(replies: &Vec<u8>) -> (r: Result<(DeviceType, usize), Ps2Error>)
    requires
        identify_replies_complete(replies@),
    ensures
        r == spec_identify(replies@),
{
    let s = Ghost(replies@);
    let n = replies.len();
    let mut i: usize = 0;

    proof {
        lemma_leading_resends_lower(s@, 0);
    }
    while replies[i] == REPLY_DEVICE_RESEND
        invariant
            s@ == replies@,
            s@.len() == n,
            identify_replies_complete(s@),
            0 <= i <= leading_resends(s@),
            forall|j: int| 0 <= j < i ==> s@[j] == REPLY_DEVICE_RESEND,
        decreases leading_resends(s@) - i,
    {
        i = i + 1;
        proof {
            lemma_leading_resends_lower(s@, i as int);
        }
    }
    proof {
        lemma_leading_resends_at(s@, i as int);
    }

    let ack = replies[i];
    if ack != REPLY_DEVICE_ACK {
        return Err(Ps2Error::NotAcknowledged(ack));
    }

    let mut response = replies[i + 1];
    if response == REPLY_TWO_BYTE_MARKER {
        // Two-byte reply: the second byte carries the classification.
        response = replies[i + 2];
    }

    match classify_device(response) {
        Ok(device) => Ok((device, i)),
        Err(e) => Err(e),
    }
}

} // verus!
