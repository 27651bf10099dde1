use f042_ftdi::control::{ControlInReply, ControlOutcome, Recipient, RequestType, SetupRequest};
use f042_ftdi::ftdi::{
    read_endpoint_address, write_endpoint_address, FtdiMode, FtdiPort, RxAction,
    DEFAULT_LATENCY_TIMER,
};
use f042_ftdi::hardware::{Hardware, PinDriver, PinOp, TransferClock, WriteClock};
use std::cell::RefCell;

fn vendor(request: u8, value: u16, index: u16, length: u16) -> SetupRequest {
    SetupRequest {
        request_type: RequestType::Vendor,
        recipient: Recipient::Device,
        request,
        value,
        index,
        length,
    }
}

/// Processes the port's commands and returns the pin operations made.
fn process(port: &mut FtdiPort, hw: &mut Hardware) -> Vec<PinOp> {
    let ops = RefCell::new(Vec::new());
    let mut pins = PinDriver::new(|op: PinOp| {
        ops.borrow_mut().push(op);
        match op {
            PinOp::TransferTdiBits { byte, .. } => byte ^ 0xff,
            _ => 0,
        }
    });
    port.process_commands(hw, &mut pins);
    drop(pins);
    ops.into_inner()
}

#[test]
fn endpoint_addresses_of_the_two_ports() {
    assert_eq!(read_endpoint_address(0), 0x02);
    assert_eq!(write_endpoint_address(0), 0x81);
    assert_eq!(read_endpoint_address(1), 0x04);
    assert_eq!(write_endpoint_address(1), 0x83);
}

#[test]
fn endpoint_dispatch() {
    let port = FtdiPort::new(1, FtdiMode::Serial);
    assert!(port.is_read_endpoint(0x04));
    assert!(!port.is_read_endpoint(0x02));
    assert!(!port.is_read_endpoint(0x83));
    assert!(port.is_write_endpoint(0x83));
    assert!(!port.is_write_endpoint(0x04));
}

#[test]
fn new_port_state() {
    let port = FtdiPort::new(1, FtdiMode::Serial);
    assert_eq!(port.interface_number(), 1);
    assert_eq!(port.mode(), FtdiMode::Serial);
    assert!(port.is_active());
    assert_eq!(port.received_len(), 0);
    assert_eq!(port.waiting_len(), 0);
}

#[test]
fn latency_timer_round_trip() {
    let mut port = FtdiPort::new(0, FtdiMode::MPSSE);
    assert_eq!(
        port.control_in(&vendor(0x0a, 0, 1, 1)),
        ControlInReply::Accept(vec![DEFAULT_LATENCY_TIMER])
    );
    assert_eq!(port.control_out(&vendor(0x09, 0x1202, 1, 0)), ControlOutcome::Accept);
    assert_eq!(port.control_in(&vendor(0x0a, 0, 1, 1)), ControlInReply::Accept(vec![0x02]));
    port.reset();
    assert_eq!(
        port.control_in(&vendor(0x0a, 0, 1, 1)),
        ControlInReply::Accept(vec![DEFAULT_LATENCY_TIMER])
    );
}

#[test]
fn control_in_answers() {
    let port = FtdiPort::new(0, FtdiMode::MPSSE);
    assert_eq!(port.control_in(&vendor(0x05, 0, 1, 2)), ControlInReply::Accept(vec![0x01, 0x60]));
    assert_eq!(port.control_in(&vendor(0x0c, 0, 1, 1)), ControlInReply::Accept(vec![0x00]));
    assert_eq!(port.control_in(&vendor(0x05, 0, 1, 1)), ControlInReply::Reject);
    assert_eq!(port.control_in(&vendor(0x0a, 0, 1, 2)), ControlInReply::Reject);
    assert_eq!(port.control_in(&vendor(0x42, 0, 1, 1)), ControlInReply::Reject);
    // for the other port, or not a vendor device request
    assert_eq!(port.control_in(&vendor(0x0a, 0, 2, 1)), ControlInReply::Ignore);
    let mut class = vendor(0x0a, 0, 1, 1);
    class.request_type = RequestType::Class;
    assert_eq!(port.control_in(&class), ControlInReply::Ignore);
    let mut interface = vendor(0x0a, 0, 1, 1);
    interface.recipient = Recipient::Interface;
    assert_eq!(port.control_in(&interface), ControlInReply::Ignore);
    // only the low byte of the index names the port
    assert_eq!(port.control_in(&vendor(0x0c, 0, 0x0101, 1)), ControlInReply::Accept(vec![0x00]));
}

#[test]
fn control_out_outcomes() {
    let mut port = FtdiPort::new(1, FtdiMode::Serial);
    for request in [0x00u8, 0x01, 0x02, 0x03, 0x04, 0x06, 0x07, 0x09, 0x0b] {
        assert_eq!(port.control_out(&vendor(request, 0, 2, 0)), ControlOutcome::Accept);
    }
    for request in [0x05u8, 0x08, 0x0a, 0x0c, 0x90] {
        assert_eq!(port.control_out(&vendor(request, 0, 2, 0)), ControlOutcome::Reject);
    }
    assert_eq!(port.control_out(&vendor(0x09, 7, 1, 0)), ControlOutcome::Ignore);
    assert_eq!(port.control_in(&vendor(0x0a, 0, 2, 1)), ControlInReply::Accept(vec![0]));
}

#[test]
fn bitmode_switches_the_mode() {
    let mut port = FtdiPort::new(0, FtdiMode::MPSSE);
    assert_eq!(port.control_out(&vendor(0x0b, 0x0000, 1, 0)), ControlOutcome::Accept);
    assert_eq!(port.mode(), FtdiMode::Serial);
    assert!(!port.is_active());
    assert_eq!(port.control_out(&vendor(0x0b, 0x02ff, 1, 0)), ControlOutcome::Accept);
    assert_eq!(port.mode(), FtdiMode::MPSSE);
    assert!(port.is_active());
    assert_eq!(port.control_out(&vendor(0x0b, 0x0102, 1, 0)), ControlOutcome::Accept);
    assert_eq!(port.mode(), FtdiMode::Serial);
}

#[test]
fn reset_requests_purge_buffers() {
    let mut port = FtdiPort::new(1, FtdiMode::Serial);
    let mut hw = Hardware::new();
    port.process_rx(&[1, 2, 3, 4]);
    process(&mut port, &mut hw);
    port.process_rx(&[5, 6]);
    assert_eq!((port.received_len(), port.waiting_len()), (2, 4));
    port.control_out(&vendor(0x00, 0x0003, 2, 0));
    assert_eq!((port.received_len(), port.waiting_len()), (2, 4));
    port.control_out(&vendor(0x00, 0x0002, 2, 0));
    assert_eq!((port.received_len(), port.waiting_len()), (2, 0));
    process(&mut port, &mut hw);
    port.process_rx(&[7]);
    assert_eq!((port.received_len(), port.waiting_len()), (1, 2));
    port.control_out(&vendor(0x00, 0x0001, 2, 0));
    assert_eq!((port.received_len(), port.waiting_len()), (0, 2));
    port.process_rx(&[8]);
    port.control_out(&vendor(0x00, 0x0000, 2, 0));
    assert_eq!((port.received_len(), port.waiting_len()), (0, 0));
}

#[test]
fn rx_action_and_discard() {
    let mut port = FtdiPort::new(0, FtdiMode::MPSSE);
    assert_eq!(port.rx_action(64), RxAction::Receive);
    assert_eq!(port.rx_action(385), RxAction::Wait);
    port.process_rx(&[0xaa; 64]);
    port.process_rx(&[0xaa; 64]);
    port.process_rx(&[0xaa; 64]);
    port.process_rx(&[0xaa; 64]);
    port.process_rx(&[0xaa; 64]);
    assert_eq!(port.rx_action(64), RxAction::Receive);
    port.process_rx(&[0xaa; 64]);
    assert_eq!(port.received_len(), 384);
    assert_eq!(port.rx_action(64), RxAction::Wait);
    port.process_rx(&[1]);
    assert_eq!(port.received_len(), 384);
    port.control_out(&vendor(0x0b, 0, 1, 0));
    assert_eq!(port.rx_action(64), RxAction::Discard);
    port.control_out(&vendor(0x00, 0, 1, 0));
    port.process_rx(&[1, 2, 3]);
    assert_eq!(port.received_len(), 0);
}

#[test]
fn serial_port_loops_data_back() {
    let mut port = FtdiPort::new(1, FtdiMode::Serial);
    let mut hw = Hardware::new();
    port.process_rx(b"hello");
    let writes = process(&mut port, &mut hw);
    assert!(writes.is_empty());
    assert_eq!(port.received_len(), 0);
    let packet = port.tx_packet(64).unwrap();
    assert_eq!(packet, vec![0x01, 0x60, b'h', b'e', b'l', b'l', b'o']);
    port.tx_done(packet.len());
    assert_eq!(port.waiting_len(), 0);
    assert_eq!(port.tx_packet(64), Some(vec![0x01, 0x60]));
}

#[test]
fn serial_loopback_keeps_what_does_not_fit() {
    let mut port = FtdiPort::new(1, FtdiMode::Serial);
    let mut hw = Hardware::new();
    for _ in 0..2 {
        port.process_rx(&[7u8; 64]);
        process(&mut port, &mut hw);
    }
    port.process_rx(&[8u8; 64]);
    process(&mut port, &mut hw);
    assert_eq!(port.waiting_len(), 128);
    assert_eq!(port.received_len(), 0);
    // nothing fits any more: the received bytes are dropped
    port.process_rx(&[9u8; 10]);
    process(&mut port, &mut hw);
    assert_eq!(port.received_len(), 0);
    assert_eq!(port.waiting_len(), 128);
}

#[test]
fn serial_packets_carry_at_most_62_bytes() {
    let mut port = FtdiPort::new(1, FtdiMode::Serial);
    let mut hw = Hardware::new();
    port.process_rx(&[3u8; 64]);
    port.process_rx(&[4u8; 36]);
    process(&mut port, &mut hw);
    let packet = port.tx_packet(64).unwrap();
    assert_eq!(packet.len(), 64);
    assert_eq!(&packet[..2], &[0x01, 0x60]);
    port.tx_done(64);
    assert_eq!(port.waiting_len(), 38);
    // a short write leaves the rest waiting
    port.tx_done(12);
    assert_eq!(port.waiting_len(), 28);
}

#[test]
fn mpsse_runs_commands_until_one_cannot_run() {
    let mut port = FtdiPort::new(0, FtdiMode::MPSSE);
    let mut hw = Hardware::new();
    port.process_rx(&[0x80, 0x08, 0x0b, 0x86, 0x01, 0x00, 0x1b, 0x03, 0x0f, 0x3b, 0x07, 0x3c, 0x4b, 0x01]);
    let writes = process(&mut port, &mut hw);
    assert_eq!(
        writes,
        vec![
            PinOp::SetGpio { direction: 0x0b, value: 0x08 },
            PinOp::WriteTdiBits { clock: WriteClock::Mhz3, byte: 0x0f, nbits: 4 },
            PinOp::TransferTdiBits { clock: TransferClock::Mhz2p8, byte: 0x3c, nbits: 8 },
        ]
    );
    // the TMS command is not complete yet
    assert_eq!(port.received_len(), 2);
    assert_eq!(port.tx_packet(64), Some(vec![0xc3]));
    port.process_rx(&[0x01]);
    let writes = process(&mut port, &mut hw);
    assert_eq!(
        writes,
        vec![PinOp::WriteTmsBits { clock: WriteClock::Mhz3, byte: 0x01, nbits: 2 }]
    );
    assert_eq!(port.received_len(), 0);
}

#[test]
fn mpsse_packets_and_sent_bytes() {
    let mut port = FtdiPort::new(0, FtdiMode::MPSSE);
    let mut hw = Hardware::new();
    assert_eq!(port.tx_packet(64), None);
    port.process_rx(&[0x3c, 0x4f, 0x00]);
    port.process_rx(&[0u8; 64]);
    port.process_rx(&[0u8; 16]);
    process(&mut port, &mut hw);
    assert_eq!(port.waiting_len(), 80);
    let packet = port.tx_packet(64).unwrap();
    assert_eq!(packet.len(), 64);
    port.tx_done(64);
    assert_eq!(port.tx_packet(64), Some(vec![0u8; 16]));
}

#[test]
fn inactive_port_processes_nothing() {
    let mut port = FtdiPort::new(0, FtdiMode::MPSSE);
    let mut hw = Hardware::new();
    port.process_rx(&[0x86, 0x05, 0x00]);
    port.control_out(&vendor(0x0b, 0x0000, 1, 0));
    let writes = process(&mut port, &mut hw);
    assert!(writes.is_empty());
    assert_eq!(port.received_len(), 3);
    port.control_out(&vendor(0x0b, 0x0200, 1, 0));
    process(&mut port, &mut hw);
    assert_eq!(port.received_len(), 0);
}

#[test]
fn unknown_mpsse_opcode_blocks_the_port() {
    let mut port = FtdiPort::new(0, FtdiMode::MPSSE);
    let mut hw = Hardware::new();
    port.process_rx(&[0x87, 0xee, 0x87]);
    process(&mut port, &mut hw);
    assert_eq!(port.received_len(), 2);
    port.process_rx(&[0x87]);
    process(&mut port, &mut hw);
    assert_eq!(port.received_len(), 3);
}
