//! The vendor control requests of the FTDI protocol.
use vstd::prelude::*;
use crate::ftdi::FtdiMode;

verus! {

pub const SIO_RESET_REQUEST: u8 = 0x00;
pub const SIO_SET_MODEM_CTRL_REQUEST: u8 = 0x01;
pub const SIO_SET_FLOW_CTRL_REQUEST: u8 = 0x02;
pub const SIO_SET_BAUDRATE_REQUEST: u8 = 0x03;
pub const SIO_SET_DATA_REQUEST: u8 = 0x04;
pub const SIO_POLL_MODEM_STATUS_REQUEST: u8 = 0x05;
pub const SIO_SET_EVENT_CHAR_REQUEST: u8 = 0x06;
pub const SIO_SET_ERROR_CHAR_REQUEST: u8 = 0x07;
pub const SIO_SET_LATENCY_TIMER_REQUEST: u8 = 0x09;
pub const SIO_GET_LATENCY_TIMER_REQUEST: u8 = 0x0A;
pub const SIO_SET_BITMODE_REQUEST: u8 = 0x0B;
pub const SIO_READ_PINS_REQUEST: u8 = 0x0C;

/// Reset kinds of SIO_RESET_REQUEST, in the low byte of its value.
pub const SIO_RESET_SIO: u8 = 0;
pub const SIO_RESET_PURGE_RX: u8 = 1;
pub const SIO_RESET_PURGE_TX: u8 = 2;

/// Bit modes of SIO_SET_BITMODE_REQUEST, in the high byte of its value.
pub const BITMODE_RESET: u8 = 0;
pub const BITMODE_MPSSE: u8 = 2;

/// The type field of a SETUP packet.
#[derive(PartialEq, Eq, Structural, Clone, Copy, Debug)]
pub enum RequestType {
    Standard,
    Class,
    Vendor,
    Reserved,
}

/// The recipient field of a SETUP packet.
#[derive(PartialEq, Eq, Structural, Clone, Copy, Debug)]
pub enum Recipient {
    Device,
    Interface,
    Endpoint,
    Other,
    Reserved,
}

/// The fields of a SETUP packet that a port reads.
#[derive(PartialEq, Eq, Structural, Clone, Copy, Debug)]
pub struct SetupRequest {
    pub request_type: RequestType,
    pub recipient: Recipient,
    pub request: u8,
    pub value: u16,
    pub index: u16,
    pub length: u16,
}

/// How a port answers a control OUT transfer.
#[derive(PartialEq, Eq, Structural, Clone, Copy, Debug)]
pub enum ControlOutcome {
    /// The request is for someone else: leave it alone.
    Ignore,
    /// Accept the request.
    Accept,
    /// Stall the request.
    Reject,
}

/// How a port answers a control IN transfer.
#[derive(PartialEq, Eq, Debug)]
pub enum ControlInReply {
    /// The request is for someone else: leave it alone.
    Ignore,
    /// Accept the request with these data bytes.
    Accept(Vec<u8>),
    /// Stall the request.
    Reject,
}

/// The request is a vendor request to the device for the port of
/// `interface` (whose index is the interface number plus one).
pub open spec fn addressed_to(req: SetupRequest, interface: u8) -> bool {
    &&& req.request_type == RequestType::Vendor
    &&& req.recipient == Recipient::Device
    &&& req.index as u8 == interface + 1
}

/// The answer to a control OUT request addressed to the port.
pub open spec fn out_outcome(req: SetupRequest, interface: u8) -> ControlOutcome {
    if !addressed_to(req, interface) {
        ControlOutcome::Ignore
    } else if req.request == SIO_RESET_REQUEST || req.request == SIO_SET_MODEM_CTRL_REQUEST
        || req.request == SIO_SET_FLOW_CTRL_REQUEST || req.request == SIO_SET_BAUDRATE_REQUEST
        || req.request == SIO_SET_DATA_REQUEST || req.request == SIO_SET_EVENT_CHAR_REQUEST
        || req.request == SIO_SET_ERROR_CHAR_REQUEST || req.request
        == SIO_SET_LATENCY_TIMER_REQUEST || req.request == SIO_SET_BITMODE_REQUEST {
        ControlOutcome::Accept
    } else {
        ControlOutcome::Reject
    }
}

/// The mode that SIO_SET_BITMODE_REQUEST selects: MPSSE for bit mode 2,
/// serial for everything else.
pub open spec fn bitmode_mode(value: u16) -> FtdiMode {
    if (value >> 8) as u8 == BITMODE_MPSSE {
        FtdiMode::MPSSE
    } else {
        FtdiMode::Serial
    }
}

/// The mode of a port after a control OUT request.
pub open spec fn out_mode(req: SetupRequest, interface: u8, mode: FtdiMode) -> FtdiMode {
    if addressed_to(req, interface) && req.request == SIO_SET_BITMODE_REQUEST {
        bitmode_mode(req.value)
    } else {
        mode
    }
}

/// The latency timer of a port after a control OUT request.
pub open spec fn out_latency(req: SetupRequest, interface: u8, latency: u8) -> u8 {
    if addressed_to(req, interface) && req.request == SIO_SET_LATENCY_TIMER_REQUEST {
        req.value as u8
    } else {
        latency
    }
}

/// The control OUT request empties the receive buffer.
pub open spec fn out_purges_rx(req: SetupRequest, interface: u8) -> bool {
    &&& addressed_to(req, interface)
    &&& req.request == SIO_RESET_REQUEST
    &&& (req.value as u8 == SIO_RESET_SIO || req.value as u8 == SIO_RESET_PURGE_RX)
}

/// The control OUT request empties the transmit buffer.
pub open spec fn out_purges_tx(req: SetupRequest, interface: u8) -> bool {
    &&& addressed_to(req, interface)
    &&& req.request == SIO_RESET_REQUEST
    &&& (req.value as u8 == SIO_RESET_SIO || req.value as u8 == SIO_RESET_PURGE_TX)
}

/// The data of an accepted control IN request addressed to the port;
/// none when it is rejected.
pub open spec fn in_reply_data(req: SetupRequest, latency: u8) -> Option<Seq<u8>> {
    if req.request == SIO_GET_LATENCY_TIMER_REQUEST && req.length == 1 {
        Some(seq![latency])
    } else if req.request == SIO_POLL_MODEM_STATUS_REQUEST && req.length == 2 {
        Some(seq![0x01u8, 0x60u8])
    } else if req.request == SIO_READ_PINS_REQUEST && req.length == 1 {
        Some(seq![0x00u8])
    } else {
        None
    }
}

/// A latency timer set with SIO_SET_LATENCY_TIMER_REQUEST is what
/// SIO_GET_LATENCY_TIMER_REQUEST reads back: the low byte of the value.
pub proof fn lemma_latency_round_trip(interface: u8, set: SetupRequest, get: SetupRequest, latency: u8)
    requires
        addressed_to(set, interface),
        set.request == SIO_SET_LATENCY_TIMER_REQUEST,
        get.request == SIO_GET_LATENCY_TIMER_REQUEST,
        get.length == 1,
    ensures
        out_outcome(set, interface) == ControlOutcome::Accept,
        in_reply_data(get, out_latency(set, interface, latency)) == Some(seq![set.value as u8]),
{
}

/// SIO_SET_BITMODE_REQUEST selects the MPSSE exactly for bit mode 2 in the
/// high byte of its value, and the serial port for every other bit mode.
pub proof fn lemma_bitmode_selects_mode(interface: u8, req: SetupRequest, mode: FtdiMode)
    requires
        addressed_to(req, interface),
        req.request == SIO_SET_BITMODE_REQUEST,
    ensures
        out_outcome(req, interface) == ControlOutcome::Accept,
        out_mode(req, interface, mode) == FtdiMode::MPSSE <==> req.value >> 8 == 2,
{
    let v = req.value;
    assert((v >> 8) as u8 == 2 <==> v >> 8 == 2) by (bit_vector);
}

/// A control OUT request that is not for the port changes nothing in it.
pub proof fn lemma_foreign_request_changes_nothing(
    interface: u8,
    req: SetupRequest,
    mode: FtdiMode,
    latency: u8,
)
    requires
        !addressed_to(req, interface),
    ensures
        out_outcome(req, interface) == ControlOutcome::Ignore,
        out_mode(req, interface, mode) == mode,
        out_latency(req, interface, latency) == latency,
        !out_purges_rx(req, interface),
        !out_purges_tx(req, interface),
{
}

/// Of the OUT requests for the port, only SIO_RESET_REQUEST empties
/// buffers: a plain reset both, a purge the one it names.
pub proof fn lemma_purges(interface: u8, req: SetupRequest)
    requires
        addressed_to(req, interface),
        req.request == SIO_RESET_REQUEST,
    ensures
        req.value as u8 == SIO_RESET_SIO ==> out_purges_rx(req, interface) && out_purges_tx(req, interface),
        req.value as u8 == SIO_RESET_PURGE_RX ==> out_purges_rx(req, interface) && !out_purges_tx(req, interface),
        req.value as u8 == SIO_RESET_PURGE_TX ==> !out_purges_rx(req, interface) && out_purges_tx(req, interface),
        req.value as u8 > 2 ==> !out_purges_rx(req, interface) && !out_purges_tx(req, interface),
{
}

/// A request is for the port of `interface` exactly when it is a vendor
/// request to the device whose index, taken modulo 256, is the interface
/// number plus one.
pub proof fn lemma_addressing(req: SetupRequest, interface: u8)
    requires
        interface < 255,
    ensures
        addressed_to(req, interface) <==> (req.request_type == RequestType::Vendor
            && req.recipient == Recipient::Device && req.index % 256 == interface + 1),
{
    let x = req.index;
    assert(x as u8 == x % 256) by (bit_vector);
}

/// The answer to a control OUT request: requests for another port are left
/// alone; of those for the port, reset and purge (0x00), modem control
/// (0x01), flow control (0x02), baud rate (0x03), data format (0x04), event
/// character (0x06), error character (0x07), latency timer (0x09) and bit
/// mode (0x0B) are accepted whatever their value, and every other request is
/// stalled.
pub proof fn lemma_out_outcomes(req: SetupRequest, interface: u8)
    ensures
        !addressed_to(req, interface) ==> out_outcome(req, interface) == ControlOutcome::Ignore,
        addressed_to(req, interface) && (req.request == 0x00 || req.request == 0x01 || req.request
            == 0x02 || req.request == 0x03 || req.request == 0x04 || req.request == 0x06
            || req.request == 0x07 || req.request == 0x09 || req.request == 0x0b) ==> out_outcome(
            req,
            interface,
        ) == ControlOutcome::Accept,
        addressed_to(req, interface) && !(req.request == 0x00 || req.request == 0x01 || req.request
            == 0x02 || req.request == 0x03 || req.request == 0x04 || req.request == 0x06
            || req.request == 0x07 || req.request == 0x09 || req.request == 0x0b) ==> out_outcome(
            req,
            interface,
        ) == ControlOutcome::Reject,
{
}

/// Whether a control OUT request is accepted does not depend on its value
/// or length: two requests that differ only there get the same answer.
pub proof fn lemma_out_outcome_ignores_value(r1: SetupRequest, r2: SetupRequest, interface: u8)
    requires
        r1.request_type == r2.request_type,
        r1.recipient == r2.recipient,
        r1.request == r2.request,
        r1.index == r2.index,
    ensures
        out_outcome(r1, interface) == out_outcome(r2, interface),
{
}

/// Every SIO_RESET_REQUEST for the port is accepted, whatever reset or
/// purge its value names.
pub proof fn lemma_reset_always_accepted(req: SetupRequest, interface: u8)
    requires
        addressed_to(req, interface),
        req.request == SIO_RESET_REQUEST,
    ensures
        out_outcome(req, interface) == ControlOutcome::Accept,
{
}

/// Only SET_LATENCY_TIMER changes the latency timer, to the low byte of its
/// value; only SET_BITMODE changes the mode, to the MPSSE when the high byte
/// of its value is 2 and to the serial port otherwise; only SIO_RESET
/// empties buffers.
pub proof fn lemma_out_effects(req: SetupRequest, interface: u8, mode: FtdiMode, latency: u8)
    ensures
        addressed_to(req, interface) && req.request == 0x09 ==> out_latency(req, interface, latency)
            == req.value % 256,
        !(addressed_to(req, interface) && req.request == 0x09) ==> out_latency(req, interface, latency)
            == latency,
        addressed_to(req, interface) && req.request == 0x0b && req.value / 256 == 2 ==> out_mode(
            req,
            interface,
            mode,
        ) == FtdiMode::MPSSE,
        addressed_to(req, interface) && req.request == 0x0b && req.value / 256 != 2 ==> out_mode(
            req,
            interface,
            mode,
        ) == FtdiMode::Serial,
        !(addressed_to(req, interface) && req.request == 0x0b) ==> out_mode(req, interface, mode)
            == mode,
        req.request != 0x00 ==> !out_purges_rx(req, interface) && !out_purges_tx(req, interface),
{
    let v = req.value;
    assert(v as u8 == v % 256) by (bit_vector);
    assert((v >> 8) as u8 == v / 256) by (bit_vector);
}

/// The answers to control IN requests for the port: GET_LATENCY_TIMER with
/// length 1 reads the latency timer, POLL_MODEM_STATUS with length 2 reads
/// the status bytes 0x01 0x60, READ_PINS with length 1 reads 0; any other
/// request, or length, is stalled.
pub proof fn lemma_in_replies(req: SetupRequest, latency: u8)
    ensures
        req.request == 0x0a && req.length == 1 ==> in_reply_data(req, latency) == Some(seq![latency]),
        req.request == 0x05 && req.length == 2 ==> in_reply_data(req, latency) == Some(
            seq![0x01u8, 0x60u8],
        ),
        req.request == 0x0c && req.length == 1 ==> in_reply_data(req, latency) == Some(seq![0x00u8]),
        !(req.request == 0x0a && req.length == 1) && !(req.request == 0x05 && req.length == 2) && !(
        req.request == 0x0c && req.length == 1) ==> in_reply_data(req, latency) is None,
{
}

} // verus!
