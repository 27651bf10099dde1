//! One port of the FT2232D: its buffers, its mode, its vendor requests and
//! the processing of what the host sent it.
use vstd::prelude::*;
use crate::buffer::Buffer;
use crate::hardware::{Hardware, PinDriver, PinOp};
use crate::mpsse::{
    batch_consumed, batch_divisor, batch_ops, batch_response_length, batch_response_ok,
    bit_count_of, command_divisor, command_length, command_ops, command_response_ok,
    response_length,
};
use crate::control::{
    ControlInReply, ControlOutcome, SetupRequest, addressed_to, in_reply_data, out_latency,
    out_mode, out_outcome, out_purges_rx, out_purges_tx, BITMODE_MPSSE, SIO_GET_LATENCY_TIMER_REQUEST,
    SIO_POLL_MODEM_STATUS_REQUEST, SIO_READ_PINS_REQUEST, SIO_RESET_PURGE_RX, SIO_RESET_PURGE_TX,
    SIO_RESET_REQUEST, SIO_RESET_SIO, SIO_SET_BAUDRATE_REQUEST, SIO_SET_BITMODE_REQUEST,
    SIO_SET_DATA_REQUEST, SIO_SET_ERROR_CHAR_REQUEST, SIO_SET_EVENT_CHAR_REQUEST,
    SIO_SET_FLOW_CTRL_REQUEST, SIO_SET_LATENCY_TIMER_REQUEST, SIO_SET_MODEM_CTRL_REQUEST,
};

verus! {

/// What a port does with the bytes it receives.
#[derive(PartialOrd, PartialEq, Eq, Structural, Copy, Clone, Debug)]
pub enum FtdiMode {
    /// A serial port (for now the received bytes are sent back).
    Serial,
    /// The Multi-Protocol Synchronous Serial Engine, driving JTAG.
    MPSSE,
}

/// Bytes a port can hold that the host sent it.
pub const RX_BUFFER_SIZE: usize = 384;

/// Bytes a port can hold to send to the host.
pub const TX_BUFFER_SIZE: usize = 128;

/// The latency timer of a port after reset.
pub const DEFAULT_LATENCY_TIMER: u8 = 16;

/// One port of the chip, apart from its USB endpoints.
pub struct FtdiPort {
    interface: u8,
    fixed_mode: FtdiMode,
    current_mode: FtdiMode,
    latency_timer: u8,
    rx_buffer: Buffer,
    tx_buffer: Buffer,
}

/// A serial port sent back the `k` oldest received bytes, `k` being as
/// many as fit; or, when nothing fits, dropped every received byte.
pub open spec fn serial_loopback(rx: Seq<u8>, tx: Seq<u8>, room: int, rx2: Seq<u8>, tx2: Seq<u8>) -> bool {
    let k = if rx.len() < room { rx.len() as int } else { room };
    if rx.len() > 0 && room > 0 {
        &&& tx2 == tx + rx.take(k)
        &&& rx2 == rx.skip(k)
    } else if rx.len() > 0 {
        &&& tx2 == tx
        &&& rx2 == Seq::<u8>::empty()
    } else {
        &&& tx2 == tx
        &&& rx2 == rx
    }
}

/// A serial port that has room loses no byte and keeps their order: what
/// waits to be sent followed by what is left to process is what was there
/// before, sent bytes first.
pub proof fn lemma_loopback_keeps_order(rx: Seq<u8>, tx: Seq<u8>, room: int, rx2: Seq<u8>, tx2: Seq<u8>)
    requires
        serial_loopback(rx, tx, room, rx2, tx2),
        room > 0,
    ensures
        tx2 + rx2 == tx + rx,
{
    if rx.len() > 0 {
        let k = if rx.len() < room { rx.len() as int } else { room };
        assert(rx.take(k) + rx.skip(k) =~= rx);
        assert(tx + rx.take(k) + rx.skip(k) =~= tx + rx);
    } else {
        assert(tx + rx =~= tx);
    }
}

/// A serial port sends back exactly as many received bytes as fit: the
/// smaller of what it received and the free room, oldest first, and keeps
/// the rest; so afterwards either every received byte went or the room is
/// used up. With received bytes and no room it drops them all; with none it
/// changes nothing.
pub proof fn lemma_loopback_moves_what_fits(rx: Seq<u8>, tx: Seq<u8>, room: int, rx2: Seq<u8>, tx2: Seq<u8>)
    requires
        serial_loopback(rx, tx, room, rx2, tx2),
    ensures
        rx.len() > 0 && room > 0 ==> {
            let moved = tx2.len() - tx.len();
            &&& moved == (if rx.len() <= room {
                rx.len() as int
            } else {
                room
            })
            &&& tx2 == tx + rx.subrange(0, moved)
            &&& rx2 == rx.subrange(moved, rx.len() as int)
            &&& rx2.len() == 0 || moved == room
        },
        rx.len() > 0 && room <= 0 ==> rx2.len() == 0 && tx2 == tx,
        rx.len() == 0 ==> rx2 == rx && tx2 == tx,
{
}

/// What a packet carries of the waiting bytes (their first `k`) followed
/// by what stays waiting after it was written whole is what was waiting:
/// bytes leave a port in the order they were queued.
pub proof fn lemma_transmit_keeps_order(tx: Seq<u8>, k: int)
    requires
        0 <= k <= tx.len(),
    ensures
        tx.take(k) + tx.skip(k) == tx,
{
    assert(tx.take(k) + tx.skip(k) =~= tx);
}

/// The endpoint addresses of the ports never collide: the OUT endpoints
/// have even numbers and the IN endpoints odd ones, each a function of the
/// interface number.
pub proof fn lemma_endpoint_addresses(i: u8, j: u8)
    requires
        i <= 62,
        j <= 62,
    ensures
        0x02 + i * 2 < 0x80,
        0x81 + i * 2 >= 0x80,
        (0x02 + i * 2) % 2 == 0,
        (0x81 + i * 2 - 0x80) % 2 == 1,
        i != j ==> 0x02 + i * 2 != 0x02 + j * 2 && 0x81 + i * 2 != 0x81 + j * 2,
{
}

/// What a port does with the next packet of its OUT endpoint: drop it when
/// not in its mode, take it when a packet of the largest size fits, else
/// leave it waiting.
pub open spec fn rx_decision(active: bool, max_packet_size: int, room: int) -> RxAction {
    if !active {
        RxAction::Discard
    } else if max_packet_size <= room {
        RxAction::Receive
    } else {
        RxAction::Wait
    }
}

/// How many waiting bytes a packet carries: up to 62 behind the status
/// bytes of a serial port, up to the packet size for the MPSSE.
pub open spec fn tx_payload_len(mode: FtdiMode, waiting: nat, max_packet_size: nat) -> nat {
    let limit = if mode == FtdiMode::Serial {
        62
    } else {
        max_packet_size
    };
    if waiting < limit {
        waiting
    } else {
        limit
    }
}

/// How many waiting bytes leave when the endpoint took `written` bytes of a
/// packet: all but the two status bytes of a serial packet.
pub open spec fn sent_waiting_bytes(mode: FtdiMode, written: nat) -> int {
    if mode == FtdiMode::Serial {
        written - 2
    } else {
        written as int
    }
}

/// A packet's waiting bytes are the oldest ones, as many as the packet
/// holds and no more than wait; a serial packet is the two modem status
/// bytes 0x01 0x60 and at most 62 bytes, so at most 64 bytes; an MPSSE
/// packet is at most the packet size. When the endpoint takes a whole
/// packet, exactly its waiting bytes leave.
pub proof fn lemma_tx_packets(mode: FtdiMode, waiting: nat, max_packet_size: nat)
    ensures
        tx_payload_len(mode, waiting, max_packet_size) <= waiting,
        mode == FtdiMode::Serial ==> tx_payload_len(mode, waiting, max_packet_size) == (if waiting <= 62 {
            waiting
        } else {
            62
        }),
        mode == FtdiMode::MPSSE ==> tx_payload_len(mode, waiting, max_packet_size) == (if waiting
            <= max_packet_size {
            waiting
        } else {
            max_packet_size
        }),
        modem_status() == seq![0x01u8, 0x60u8],
        mode == FtdiMode::Serial ==> modem_status().len() + tx_payload_len(mode, waiting, max_packet_size) <= 64,
        mode == FtdiMode::Serial ==> sent_waiting_bytes(
            mode,
            modem_status().len() + tx_payload_len(mode, waiting, max_packet_size),
        ) == tx_payload_len(mode, waiting, max_packet_size),
        mode == FtdiMode::MPSSE ==> sent_waiting_bytes(mode, tx_payload_len(mode, waiting, max_packet_size))
            == tx_payload_len(mode, waiting, max_packet_size),
        mode == FtdiMode::Serial ==> sent_waiting_bytes(mode, 2) == 0,
{
}

/// A port out of its mode drops every packet; in its mode it takes a packet
/// exactly when a packet of the largest size fits in its receive room, and
/// otherwise leaves it in the endpoint.
pub proof fn lemma_rx_decisions(active: bool, max_packet_size: int, room: int)
    ensures
        rx_decision(active, max_packet_size, room) == RxAction::Discard <==> !active,
        rx_decision(active, max_packet_size, room) == RxAction::Receive <==> active && max_packet_size <= room,
        rx_decision(active, max_packet_size, room) == RxAction::Wait <==> active && room < max_packet_size,
{
}

/// The sizes of a port: 384 received bytes, 128 bytes to send, and a
/// latency timer of 16 after reset.
pub proof fn lemma_port_sizes()
    ensures
        RX_BUFFER_SIZE == 384,
        TX_BUFFER_SIZE == 128,
        DEFAULT_LATENCY_TIMER == 16,
{
}

/// The two modem status bytes that open every packet of a serial port.
pub open spec fn modem_status() -> Seq<u8> {
    seq![0x01u8, 0x60u8]
}

/// What the port does with the next packet of its OUT endpoint.
#[derive(PartialEq, Eq, Structural, Clone, Copy, Debug)]
pub enum RxAction {
    /// Read it and drop it: the port is not in its own mode.
    Discard,
    /// Read it into the receive buffer.
    Receive,
    /// Leave it in the endpoint: a whole packet does not fit yet.
    Wait,
}

/// The address of the bulk OUT endpoint of the port of `interface`.
pub fn read_endpoint_address(interface: u8) -> (a: u8)
    requires
        interface <= 63,
    ensures
        a == 0x02 + interface * 2,
{
    0x02 + interface * 2
}

/// The address of the bulk IN endpoint of the port of `interface`.
pub fn write_endpoint_address(interface: u8) -> (a: u8)
    requires
        interface <= 63,
    ensures
        a == 0x81 + interface * 2,
{
    0x81 + interface * 2
}

impl FtdiPort {
    /// The USB interface number of the port.
    pub closed spec fn interface(&self) -> u8 {
        self.interface
    }

    /// The mode the port was built for.
    pub closed spec fn fixed_mode(&self) -> FtdiMode {
        self.fixed_mode
    }

    /// The mode the host selected.
    pub closed spec fn current_mode(&self) -> FtdiMode {
        self.current_mode
    }

    /// The latency timer the host set.
    pub closed spec fn latency_timer(&self) -> u8 {
        self.latency_timer
    }

    /// The received bytes not yet processed, oldest first.
    pub closed spec fn rx(&self) -> Seq<u8> {
        self.rx_buffer@
    }

    /// The bytes waiting to be sent to the host, oldest first.
    pub closed spec fn tx(&self) -> Seq<u8> {
        self.tx_buffer@
    }

    /// Free bytes in the transmit buffer.
    pub closed spec fn tx_room(&self) -> int {
        self.tx_buffer.room()
    }

    /// Free bytes in the receive buffer.
    pub closed spec fn rx_room(&self) -> int {
        self.rx_buffer.room()
    }

    /// The buffers are sound and of their fixed sizes; the interface number
    /// leaves room for the endpoint addresses.
    pub closed spec fn wf(&self) -> bool {
        &&& self.rx_buffer.wf()
        &&& self.tx_buffer.wf()
        &&& self.rx_buffer.capacity() == RX_BUFFER_SIZE
        &&& self.tx_buffer.capacity() == TX_BUFFER_SIZE
        &&& self.interface <= 63
    }

    /// The port processes data only in the mode it was built for.
    pub open spec fn active(&self) -> bool {
        self.current_mode() == self.fixed_mode()
    }

    /// The free bytes of the buffers follow from their contents.
    pub proof fn lemma_rooms(&self)
        requires
            self.wf(),
        ensures
            self.rx_room() == RX_BUFFER_SIZE - self.rx().len(),
            self.tx_room() == TX_BUFFER_SIZE - self.tx().len(),
            0 <= self.rx_room() <= RX_BUFFER_SIZE,
            0 <= self.tx_room() <= TX_BUFFER_SIZE,
    {
        self.rx_buffer.lemma_len_bound();
        self.tx_buffer.lemma_len_bound();
    }

    /// A port for `interface`, in `fixed_mode`, with empty buffers and the
    /// default latency timer.
    pub fn new(interface: u8, fixed_mode: FtdiMode) -> (p: FtdiPort)
        requires
            interface <= 63,
        ensures
            p.wf(),
            p.interface() == interface,
            p.fixed_mode() == fixed_mode,
            p.current_mode() == fixed_mode,
            p.latency_timer() == DEFAULT_LATENCY_TIMER,
            p.rx() == Seq::<u8>::empty(),
            p.tx() == Seq::<u8>::empty(),
    {
        FtdiPort {
            interface,
            fixed_mode,
            current_mode: fixed_mode,
            latency_timer: DEFAULT_LATENCY_TIMER,
            rx_buffer: Buffer::new(RX_BUFFER_SIZE),
            tx_buffer: Buffer::new(TX_BUFFER_SIZE),
        }
    }

    /// The USB interface number of the port.
    pub fn interface_number(&self) -> (i: u8)
        requires
            self.wf(),
        ensures
            i == self.interface(),
            i <= 63,
    {
        self.interface
    }

    /// Whether `addr` is the address of the port's bulk OUT endpoint, whose
    /// packets the port receives.
    pub fn is_read_endpoint(&self, addr: u8) -> (b: bool)
        requires
            self.wf(),
        ensures
            b == (addr == 0x02 + self.interface() * 2),
    {
        addr == read_endpoint_address(self.interface)
    }

    /// Whether `addr` is the address of the port's bulk IN endpoint, whose
    /// completed writes let the port send more.
    pub fn is_write_endpoint(&self, addr: u8) -> (b: bool)
        requires
            self.wf(),
        ensures
            b == (addr == 0x81 + self.interface() * 2),
    {
        addr == write_endpoint_address(self.interface)
    }

    /// The mode the host selected.
    pub fn mode(&self) -> (m: FtdiMode)
        ensures
            m == self.current_mode(),
    {
        self.current_mode
    }

    /// The number of received bytes not yet processed.
    pub fn received_len(&self) -> (n: usize)
        requires
            self.wf(),
        ensures
            n == self.rx().len(),
    {
        self.rx_buffer.available_read()
    }

    /// The number of bytes waiting to be sent.
    pub fn waiting_len(&self) -> (n: usize)
        requires
            self.wf(),
        ensures
            n == self.tx().len(),
    {
        self.tx_buffer.available_read()
    }

    /// Whether the port is in the mode it was built for.
    pub fn is_active(&self) -> (b: bool)
        ensures
            b == self.active(),
    {
        self.current_mode == self.fixed_mode
    }

    /// Bus reset: the latency timer returns to its default, both buffers
    /// are emptied; the modes are kept.
    pub fn reset(&mut self)
        requires
            old(self).wf(),
        ensures
            final(self).wf(),
            final(self).interface() == old(self).interface(),
            final(self).fixed_mode() == old(self).fixed_mode(),
            final(self).current_mode() == old(self).current_mode(),
            final(self).latency_timer() == DEFAULT_LATENCY_TIMER,
            final(self).rx() == Seq::<u8>::empty(),
            final(self).tx() == Seq::<u8>::empty(),
    {
        self.latency_timer = DEFAULT_LATENCY_TIMER;
        self.rx_buffer.clear();
        self.tx_buffer.clear();
    }

    /// Whether a SETUP request is a vendor request to the device for this port.
    fn addressed(&self, req: &SetupRequest) -> (b: bool)
        requires
            self.wf(),
        ensures
            b == addressed_to(*req, self.interface()),
    {
        let port_index = #[verifier::truncate] (req.index as u8);
        match (req.request_type, req.recipient) {
            (crate::control::RequestType::Vendor, crate::control::Recipient::Device) => {
                port_index == self.interface + 1
            },
            _ => false,
        }
    }

    /// A control OUT request: resets and purges the buffers, sets the
    /// latency timer or the bit mode, accepts the requests that are
    /// ignored, rejects unknown ones and leaves requests for others alone.
    pub fn control_out(&mut self, req: &SetupRequest) -> (outcome: ControlOutcome)
        requires
            old(self).wf(),
        ensures
            final(self).wf(),
            outcome == out_outcome(*req, old(self).interface()),
            final(self).interface() == old(self).interface(),
            final(self).fixed_mode() == old(self).fixed_mode(),
            final(self).current_mode() == out_mode(
                *req,
                old(self).interface(),
                old(self).current_mode(),
            ),
            final(self).latency_timer() == out_latency(
                *req,
                old(self).interface(),
                old(self).latency_timer(),
            ),
            final(self).rx() == (if out_purges_rx(*req, old(self).interface()) {
                Seq::<u8>::empty()
            } else {
                old(self).rx()
            }),
            final(self).tx() == (if out_purges_tx(*req, old(self).interface()) {
                Seq::<u8>::empty()
            } else {
                old(self).tx()
            }),
    {
        if !self.addressed(req) {
            return ControlOutcome::Ignore;
        }
        match req.request {
            SIO_RESET_REQUEST => {
                let reset_type = #[verifier::truncate] (req.value as u8);
                if reset_type == SIO_RESET_SIO {
                    self.rx_buffer.clear();
                    self.tx_buffer.clear();
                } else if reset_type == SIO_RESET_PURGE_RX {
                    self.rx_buffer.clear();
                } else if reset_type == SIO_RESET_PURGE_TX {
                    self.tx_buffer.clear();
                }
                ControlOutcome::Accept
            },
            SIO_SET_MODEM_CTRL_REQUEST | SIO_SET_FLOW_CTRL_REQUEST | SIO_SET_BAUDRATE_REQUEST
            | SIO_SET_DATA_REQUEST | SIO_SET_EVENT_CHAR_REQUEST | SIO_SET_ERROR_CHAR_REQUEST => {
                // Accepted and ignored
                ControlOutcome::Accept
            },
            SIO_SET_LATENCY_TIMER_REQUEST => {
                self.latency_timer = #[verifier::truncate] (req.value as u8);
                ControlOutcome::Accept
            },
            SIO_SET_BITMODE_REQUEST => {
                let bit_mode = #[verifier::truncate] ((req.value >> 8) as u8);
                self.current_mode = if bit_mode == BITMODE_MPSSE {
                    FtdiMode::MPSSE
                } else {
                    FtdiMode::Serial
                };
                ControlOutcome::Accept
            },
            _ => ControlOutcome::Reject,
        }
    }

    /// A control IN request: answers the latency timer, the modem status
    /// and the pins (read as 0); rejects the rest and leaves requests for
    /// others alone.
    pub fn control_in(&self, req: &SetupRequest) -> (reply: ControlInReply)
        requires
            self.wf(),
        ensures
            reply is Ignore <==> !addressed_to(*req, self.interface()),
            reply is Reject <==> addressed_to(*req, self.interface()) && in_reply_data(
                *req,
                self.latency_timer(),
            ) is None,
            reply matches ControlInReply::Accept(data) ==> addressed_to(*req, self.interface())
                && in_reply_data(*req, self.latency_timer()) == Some(data@),
    {
        if !self.addressed(req) {
            return ControlInReply::Ignore;
        }
        if req.request == SIO_GET_LATENCY_TIMER_REQUEST && req.length == 1 {
            let data = vec![self.latency_timer];
            assert(data@ =~= seq![self.latency_timer]);
            ControlInReply::Accept(data)
        } else if req.request == SIO_POLL_MODEM_STATUS_REQUEST && req.length == 2 {
            let data = vec![0x01u8, 0x60u8];
            assert(data@ =~= seq![0x01u8, 0x60u8]);
            ControlInReply::Accept(data)
        } else if req.request == SIO_READ_PINS_REQUEST && req.length == 1 {
            let data = vec![0x00u8];
            assert(data@ =~= seq![0x00u8]);
            ControlInReply::Accept(data)
        } else {
            ControlInReply::Reject
        }
    }
}

impl FtdiPort {
    /// Runs the MPSSE command at the head of `data`, answering into
    /// `tx_buffer` and handing its operations to `pins`. Returns how many
    /// bytes of `data` it took: 0 when the command cannot run yet (or never,
    /// for an unknown opcode), in which case it does nothing.
    pub fn process_mpsse_command<F: Fn(PinOp) -> u8>(
        hardware: &mut Hardware,
        data: &[u8],
        tx_buffer: &mut Buffer,
        pins: &mut PinDriver<F>,
    ) -> (n: usize)
        requires
            old(tx_buffer).wf(),
            old(pins).ready(),
        ensures
            n == command_length(data@, old(tx_buffer).room()),
            n <= data@.len(),
            final(pins).routine() == old(pins).routine(),
            final(pins).log() == old(pins).log() + command_ops(
                data@,
                old(tx_buffer).room(),
                old(hardware).divisor(),
            ),
            final(hardware).divisor() == command_divisor(
                data@,
                old(tx_buffer).room(),
                old(hardware).divisor(),
            ),
            final(tx_buffer).wf(),
            final(tx_buffer).capacity() == old(tx_buffer).capacity(),
            final(tx_buffer)@.len() == old(tx_buffer)@.len() + response_length(
                data@,
                old(tx_buffer).room(),
            ),
            final(tx_buffer)@.take(old(tx_buffer)@.len() as int) == old(tx_buffer)@,
            command_response_ok(
                data@,
                old(tx_buffer).room(),
                old(hardware).divisor(),
                old(pins).routine(),
                final(tx_buffer)@.skip(old(tx_buffer)@.len() as int),
            ),
    {
        let ghost room = tx_buffer.room();
        let ghost old_tx = tx_buffer@;
        let ghost log0 = pins.log();
        proof {
            assert(old_tx.take(old_tx.len() as int) =~= old_tx);
            assert(tx_buffer@.skip(old_tx.len() as int) =~= Seq::<u8>::empty());
            assert(log0 + Seq::<PinOp>::empty() =~= log0);
        }
        if data.len() == 0 {
            return 0;
        }
        let command = data[0];
        match command {
            0x1a => {
                // Clock Data Bits Out on +ve clock edge LSB first (no read): not supported
                if data.len() < 3 {
                    return 0;
                }
                3
            },
            0x1b => {
                // Clock Data Bits Out on -ve clock edge LSB first (no read)
                if data.len() < 3 {
                    return 0;
                }
                let nbits = bit_count_of(data[1]);
                let byte = data[2];
                hardware.mpsse_write_tdi_bits_lsb_mode0(byte, nbits, pins);
                3
            },
            0x39 | 0x3c => {
                // Clock Data Bytes In and Out LSB first
                if data.len() < 4 {
                    return 0;
                }
                let lo = data[1];
                let hi = data[2];
                let n: u16 = (lo as u16) | ((hi as u16) << 8u16);
                assert(n == lo as u16 + hi as u16 * 256) by (bit_vector)
                    requires
                        n == (lo as u16) | ((hi as u16) << 8u16),
                ;
                let nbytes = (n as usize) + 1;
                if data.len() < 3 + nbytes {
                    return 0;
                }
                if tx_buffer.available_write() < nbytes {
                    return 0;
                }
                let mut response: Vec<u8> = vec![0u8; nbytes];
                if command == 0x39 {
                    // The data bytes follow the opcode and the two length bytes
                    let tdi = vstd::slice::slice_subrange(data, 3, 3 + nbytes);
                    hardware.mpsse_transfer_tdi_bytes_lsb_mode0(tdi, response.as_mut_slice(), pins);
                    assert(tdi@.take(nbytes as int) =~= tdi@);
                } else {
                    // Not supported: the answer is zeros
                    assert(response@ =~= Seq::new(nbytes as nat, |i: int| 0u8));
                }
                tx_buffer.write_all(response.as_slice());
                assert(tx_buffer@.skip(old_tx.len() as int) =~= response@);
                assert(tx_buffer@.take(old_tx.len() as int) =~= old_tx);
                3 + nbytes
            },
            0x3b | 0x3e => {
                // Clock Data Bits In and Out LSB first
                if data.len() < 3 {
                    return 0;
                }
                if tx_buffer.available_write() < 1 {
                    return 0;
                }
                let response = if command == 0x3b {
                    let nbits = bit_count_of(data[1]);
                    let byte = data[2];
                    hardware.mpsse_transfer_tdi_bits_lsb_mode0(byte, nbits, pins)
                } else {
                    // Not supported
                    0
                };
                let answer: Vec<u8> = vec![response];
                assert(answer@ =~= seq![response]);
                tx_buffer.write_all(answer.as_slice());
                assert(tx_buffer@.skip(old_tx.len() as int) =~= answer@);
                assert(tx_buffer@.take(old_tx.len() as int) =~= old_tx);
                3
            },
            0x4a | 0x4b => {
                // Clock Data to TMS pin (no read)
                if data.len() < 3 {
                    return 0;
                }
                if command == 0x4b {
                    let nbits = bit_count_of(data[1]);
                    let byte = data[2];
                    hardware.mpsse_write_tms_bits_lsb_mode0(byte, nbits, pins);
                }
                3
            },
            0x6a | 0x6b | 0x6e | 0x6f => {
                // Clock Data to TMS pin with read
                if data.len() < 3 {
                    return 0;
                }
                if tx_buffer.available_write() < 1 {
                    return 0;
                }
                let response = if command == 0x6b {
                    let nbits = bit_count_of(data[1]);
                    let byte = data[2];
                    hardware.mpsse_transfer_tms_bits_lsb_mode0(byte, nbits, pins)
                } else {
                    // Not supported
                    0
                };
                let answer: Vec<u8> = vec![response];
                assert(answer@ =~= seq![response]);
                tx_buffer.write_all(answer.as_slice());
                assert(tx_buffer@.skip(old_tx.len() as int) =~= answer@);
                assert(tx_buffer@.take(old_tx.len() as int) =~= old_tx);
                3
            },
            0x80 => {
                // Set Data bits LowByte
                if data.len() < 3 {
                    return 0;
                }
                let value = data[1];
                let direction = data[2];
                hardware.mpsse_set_gpio_value(direction, value, pins);
                assert(pins.log() =~= log0 + seq![PinOp::SetGpio { direction, value }]);
                3
            },
            0x82 => {
                // Set Data bits High Byte: the high byte is not wired, discard
                if data.len() < 3 {
                    return 0;
                }
                3
            },
            0x84 => {
                // Connect TDI to TDO for Loopback: not supported
                1
            },
            0x85 => {
                // Disconnect TDI to TDO for Loopback: not supported
                1
            },
            0x86 => {
                // Set TCK/SK Divisor
                if data.len() < 3 {
                    return 0;
                }
                let lo = data[1];
                let hi = data[2];
                let div: u16 = (lo as u16) | ((hi as u16) << 8u16);
                assert(div == lo as u16 + hi as u16 * 256) by (bit_vector)
                    requires
                        div == (lo as u16) | ((hi as u16) << 8u16),
                ;
                let div = div as u32 + 1;
                hardware.mpsse_set_tck_divisor(div);
                3
            },
            0x87 => {
                // Send Immediate: not supported
                1
            },
            _ => {
                // Unknown command: hang
                0
            },
        }
    }

    /// What to do with the next packet of the OUT endpoint, whose packets
    /// hold at most `max_packet_size` bytes.
    pub fn rx_action(&self, max_packet_size: usize) -> (a: RxAction)
        requires
            self.wf(),
        ensures
            a == rx_decision(self.active(), max_packet_size as int, self.rx_room()),
    {
        if self.current_mode != self.fixed_mode {
            RxAction::Discard
        } else if max_packet_size <= self.rx_buffer.available_write() {
            RxAction::Receive
        } else {
            RxAction::Wait
        }
    }

    /// A packet read from the OUT endpoint: kept when the port is in its
    /// mode and the packet fits, dropped otherwise.
    pub fn process_rx(&mut self, packet: &[u8])
        requires
            old(self).wf(),
        ensures
            final(self).wf(),
            final(self).interface() == old(self).interface(),
            final(self).fixed_mode() == old(self).fixed_mode(),
            final(self).current_mode() == old(self).current_mode(),
            final(self).latency_timer() == old(self).latency_timer(),
            final(self).tx() == old(self).tx(),
            final(self).rx() == (if old(self).active() && packet@.len() <= old(self).rx_room() {
                old(self).rx() + packet@
            } else {
                old(self).rx()
            }),
    {
        if self.current_mode != self.fixed_mode {
            // Discard the packet
            return;
        }
        self.rx_buffer.write_all(packet);
    }

    /// The packet to write to the IN endpoint, whose packets hold at most
    /// `max_packet_size` bytes: for a serial port the modem status followed
    /// by up to 62 waiting bytes, always; for the MPSSE the waiting bytes
    /// that fit, if there are any.
    pub fn tx_packet(&self, max_packet_size: usize) -> (p: Option<Vec<u8>>)
        requires
            self.wf(),
        ensures
            self.current_mode() == FtdiMode::Serial ==> (p matches Some(v) && v@ == modem_status()
                + self.tx().take(tx_payload_len(FtdiMode::Serial, self.tx().len(), max_packet_size as nat) as int)),
            self.current_mode() == FtdiMode::MPSSE ==> {
                &&& self.tx().len() == 0 ==> p is None
                &&& self.tx().len() > 0 ==> (p matches Some(v) && v@ == self.tx().take(
                    tx_payload_len(FtdiMode::MPSSE, self.tx().len(), max_packet_size as nat) as int,
                ))
            },
    {
        let waiting = self.tx_buffer.unread();
        match self.current_mode {
            FtdiMode::Serial => {
                let n = if waiting.len() < 62 { waiting.len() } else { 62 };
                let mut packet: Vec<u8> = vec![0x01u8, 0x60u8];
                let mut i: usize = 0;
                while i < n
                    invariant
                        n <= waiting@.len(),
                        i <= n,
                        packet@ == seq![0x01u8, 0x60u8] + waiting@.take(i as int),
                    decreases n - i,
                {
                    packet.push(waiting[i]);
                    assert(waiting@.take(i + 1) =~= waiting@.take(i as int).push(waiting@[i as int]));
                    i = i + 1;
                }
                assert(seq![0x01u8, 0x60u8] =~= modem_status());
                Some(packet)
            },
            FtdiMode::MPSSE => {
                if waiting.len() == 0 {
                    return None;
                }
                let n = if waiting.len() < max_packet_size { waiting.len() } else { max_packet_size };
                let part = vstd::slice::slice_subrange(waiting, 0, n);
                let packet = vstd::slice::slice_to_vec(part);
                assert(packet@ =~= waiting@.take(n as int));
                Some(packet)
            },
        }
    }

    /// The IN endpoint took `written` bytes of the packet of `tx_packet`:
    /// the waiting bytes among them leave the transmit buffer (the two
    /// status bytes of a serial packet are not waiting bytes).
    pub fn tx_done(&mut self, written: usize)
        requires
            old(self).wf(),
            old(self).current_mode() == FtdiMode::Serial ==> 2 <= written <= old(self).tx().len() + 2,
            old(self).current_mode() == FtdiMode::MPSSE ==> written <= old(self).tx().len(),
        ensures
            final(self).wf(),
            final(self).interface() == old(self).interface(),
            final(self).fixed_mode() == old(self).fixed_mode(),
            final(self).current_mode() == old(self).current_mode(),
            final(self).latency_timer() == old(self).latency_timer(),
            final(self).rx() == old(self).rx(),
            final(self).tx() == old(self).tx().skip(
                sent_waiting_bytes(old(self).current_mode(), written as nat),
            ),
    {
        match self.current_mode {
            FtdiMode::Serial => self.tx_buffer.consume(written - 2),
            FtdiMode::MPSSE => self.tx_buffer.consume(written),
        }
    }
    /// Processes the received bytes. A port that is not in its mode does
    /// nothing. A serial port sends back as many received bytes as fit
    /// (dropping them all when nothing fits) and touches no pin. The MPSSE
    /// runs commands until the received bytes are used up or the next
    /// command cannot run, handing their operations to `pins` in order.
    pub fn process_commands<F: Fn(PinOp) -> u8>(&mut self, hardware: &mut Hardware, pins: &mut PinDriver<F>)
        requires
            old(self).wf(),
            old(pins).ready(),
        ensures
            final(self).wf(),
            final(self).interface() == old(self).interface(),
            final(self).fixed_mode() == old(self).fixed_mode(),
            final(self).current_mode() == old(self).current_mode(),
            final(self).latency_timer() == old(self).latency_timer(),
            final(pins).routine() == old(pins).routine(),
            !old(self).active() ==> {
                &&& final(self).rx() == old(self).rx()
                &&& final(self).tx() == old(self).tx()
                &&& final(hardware).divisor() == old(hardware).divisor()
                &&& final(pins).log() == old(pins).log()
            },
            old(self).active() && old(self).current_mode() == FtdiMode::Serial ==> {
                &&& final(hardware).divisor() == old(hardware).divisor()
                &&& final(pins).log() == old(pins).log()
                &&& serial_loopback(old(self).rx(), old(self).tx(), old(self).tx_room(), final(self).rx(), final(self).tx())
            },
            old(self).active() && old(self).current_mode() == FtdiMode::MPSSE ==> {
                let data = old(self).rx();
                let room = old(self).tx_room();
                let div = old(hardware).divisor();
                &&& final(self).rx() == data.skip(batch_consumed(data, room) as int)
                &&& final(self).tx().len() == old(self).tx().len() + batch_response_length(data, room)
                &&& final(self).tx().take(old(self).tx().len() as int) == old(self).tx()
                &&& batch_response_ok(data, room, div, old(pins).routine(), final(self).tx().skip(old(self).tx().len() as int))
                &&& final(hardware).divisor() == batch_divisor(data, room, div)
                &&& final(pins).log() == old(pins).log() + batch_ops(data, room, div)
                &&& final(self).rx().len() == 0 || command_length(final(self).rx(), final(self).tx_room()) == 0
            },
    {
        if self.current_mode != self.fixed_mode {
            return;
        }
        match self.current_mode {
            FtdiMode::Serial => {
                // Loop all the data back for now
                let available_read = self.rx_buffer.available_read();
                let available_write = self.tx_buffer.available_write();
                if available_read > 0 && available_write > 0 {
                    let n = if available_read < available_write { available_read } else { available_write };
                    let data = vstd::slice::slice_subrange(self.rx_buffer.unread(), 0, n);
                    self.tx_buffer.write_all(data);
                    self.rx_buffer.consume(n);
                } else if available_read > 0 && available_write == 0 {
                    // Discard all the data
                    self.rx_buffer.clear();
                }
            },
            FtdiMode::MPSSE => {
                let ghost data0 = self.rx_buffer@;
                let ghost room0 = self.tx_buffer.room();
                let ghost div0 = hardware.divisor();
                let ghost tx0 = self.tx_buffer@;
                let ghost log0 = pins.log();
                let ghost drive = pins.routine();
                let ghost mut consumed: nat = 0;
                proof {
                    assert(data0.skip(0) =~= data0);
                    assert(self.tx_buffer@.take(tx0.len() as int) =~= tx0);
                    assert(self.tx_buffer@.skip(tx0.len() as int) =~= Seq::<u8>::empty());
                    assert(log0 + batch_ops(data0, room0, div0) =~= log0 + Seq::<PinOp>::empty() + batch_ops(data0, room0, div0));
                    assert(log0 =~= log0.subrange(0, log0.len() as int));
                    assert forall|rest: Seq<u8>|
                        #[trigger] batch_response_ok(self.rx_buffer@, room0, div0, drive, rest)
                        implies batch_response_ok(data0, room0, div0, drive, Seq::<u8>::empty() + rest) by {
                        assert(Seq::<u8>::empty() + rest =~= rest);
                    }
                }
                while self.rx_buffer.available_read() > 0
                    invariant
                        pins.ready(),
                        pins.routine() == drive,
                        self.rx_buffer.wf(),
                        self.tx_buffer.wf(),
                        self.rx_buffer.capacity() == RX_BUFFER_SIZE,
                        self.tx_buffer.capacity() == TX_BUFFER_SIZE,
                        self.interface <= 63,
                        self.interface == old(self).interface,
                        self.fixed_mode == old(self).fixed_mode,
                        self.current_mode == old(self).current_mode,
                        self.latency_timer == old(self).latency_timer,
                        self.rx_buffer@ == data0.skip(consumed as int),
                        consumed <= data0.len(),
                        batch_consumed(data0, room0) == consumed + batch_consumed(self.rx_buffer@, self.tx_buffer.room()),
                        self.tx_buffer@.take(tx0.len() as int) == tx0,
                        tx0.len() <= self.tx_buffer@.len(),
                        self.tx_buffer.room() == room0 - (self.tx_buffer@.len() - tx0.len()),
                        batch_response_length(data0, room0) == (self.tx_buffer@.len() - tx0.len())
                            + batch_response_length(self.rx_buffer@, self.tx_buffer.room()),
                        batch_divisor(data0, room0, div0) == batch_divisor(self.rx_buffer@, self.tx_buffer.room(), hardware.divisor()),
                        log0 + batch_ops(data0, room0, div0) == pins.log() + batch_ops(self.rx_buffer@, self.tx_buffer.room(), hardware.divisor()),
                        forall|rest: Seq<u8>|
                            #[trigger] batch_response_ok(self.rx_buffer@, self.tx_buffer.room(), hardware.divisor(), drive, rest)
                            ==> batch_response_ok(data0, room0, div0, drive, self.tx_buffer@.skip(tx0.len() as int) + rest),
                    ensures
                        self.rx_buffer@.len() == 0 || command_length(self.rx_buffer@, self.tx_buffer.room()) == 0,
                    decreases self.rx_buffer@.len(),
                {
                    let ghost data = self.rx_buffer@;
                    let ghost room = self.tx_buffer.room();
                    let ghost div = hardware.divisor();
                    let ghost tx_before = self.tx_buffer@;
                    let ghost log_before = pins.log();
                    let n = Self::process_mpsse_command(hardware, self.rx_buffer.unread(), &mut self.tx_buffer, pins);
                    if n == 0 {
                        assert(self.tx_buffer@ =~= self.tx_buffer@.take(tx_before.len() as int));
                        assert(pins.log() =~= log_before);
                        break;
                    }
                    self.rx_buffer.consume(n);
                    proof {
                        let rl = response_length(data, room);
                        let step = self.tx_buffer@.skip(tx_before.len() as int);
                        assert(data0.skip(consumed as int).skip(n as int) =~= data0.skip(consumed + n));
                        consumed = consumed + n as nat;
                        assert(self.tx_buffer@.take(tx0.len() as int) =~= tx0) by {
                            assert(tx_before.take(tx0.len() as int) =~= tx0);
                        }
                        assert(self.tx_buffer@.skip(tx0.len() as int) =~= tx_before.skip(tx0.len() as int) + step) by {
                            assert(self.tx_buffer@.take(tx_before.len() as int) =~= tx_before);
                        }
                        let rest_ops = batch_ops(self.rx_buffer@, self.tx_buffer.room(), hardware.divisor());
                        assert(batch_ops(data, room, div) == command_ops(data, room, div) + rest_ops);
                        assert(log_before + (command_ops(data, room, div) + rest_ops) =~= pins.log() + rest_ops);
                        assert forall|rest: Seq<u8>|
                            #[trigger] batch_response_ok(self.rx_buffer@, self.tx_buffer.room(), hardware.divisor(), drive, rest)
                            implies batch_response_ok(data0, room0, div0, drive, self.tx_buffer@.skip(tx0.len() as int) + rest) by {
                            let full = step + rest;
                            assert(full.take(rl as int) =~= step);
                            assert(full.skip(rl as int) =~= rest);
                            assert(batch_response_ok(data, room, div, drive, full));
                            assert(tx_before.skip(tx0.len() as int) + full =~= self.tx_buffer@.skip(tx0.len() as int) + rest);
                        }
                    }
                }
                proof {
                    assert(batch_response_ok(self.rx_buffer@, self.tx_buffer.room(), hardware.divisor(), drive, Seq::<u8>::empty()));
                    assert(self.tx_buffer@.skip(tx0.len() as int) + Seq::<u8>::empty() =~= self.tx_buffer@.skip(tx0.len() as int));
                    assert(pins.log() + Seq::<PinOp>::empty() =~= pins.log());
                }
            },
        }
    }
}

} // verus!
