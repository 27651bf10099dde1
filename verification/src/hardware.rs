use vstd::prelude::*;

verus! {

/// The clock of the routines that only shift bits out.
#[derive(PartialEq, Eq, Structural, Clone, Copy, Debug)]
pub enum WriteClock {
    /// 6 MHz.
    Mhz6,
    /// 3 MHz.
    Mhz3,
    /// A software delay loop with the given count.
    Delay(u32),
}

/// The clock of the routines that shift bits out and sample TDO.
#[derive(PartialEq, Eq, Structural, Clone, Copy, Debug)]
pub enum TransferClock {
    /// 4 MHz (asked for as 6 MHz).
    Mhz4,
    /// 2.8 MHz (asked for as 3 MHz).
    Mhz2p8,
    /// 2 MHz.
    Mhz2,
    /// A software delay loop with the given count.
    Delay(u32),
}

/// One operation on the JTAG pins, handed to the routine that drives them.
/// The routine answers with the sampled TDO bits for the transfers and
/// with anything for the other operations.
#[derive(PartialEq, Eq, Structural, Clone, Copy, Debug)]
#[allow(inconsistent_fields)]
pub enum PinOp {
    /// Clock `nbits` bits of `byte` out on TDI, LSB first, on the falling edge.
    WriteTdiBits { clock: WriteClock, byte: u8, nbits: u8 },
    /// Clock `nbits` bits of `byte` out on TDI and sample TDO on the rising edge.
    TransferTdiBits { clock: TransferClock, byte: u8, nbits: u8 },
    /// Clock `nbits` bits of `byte` out on TMS, bit 7 held on TDI.
    WriteTmsBits { clock: WriteClock, byte: u8, nbits: u8 },
    /// Clock `nbits` bits of `byte` out on TMS and sample TDO.
    TransferTmsBits { clock: TransferClock, byte: u8, nbits: u8 },
    /// Set the direction and the level of the four low ADBUS pins.
    SetGpio { direction: u8, value: u8 },
}

/// The routine that drives the JTAG pins, with the record of every
/// operation handed to it so far.
pub struct PinDriver<F: Fn(PinOp) -> u8> {
    drive: F,
    log: Ghost<Seq<PinOp>>,
}

impl<F: Fn(PinOp) -> u8> PinDriver<F> {
    /// The routine.
    pub closed spec fn routine(&self) -> F {
        self.drive
    }

    /// The operations handed to the routine so far, oldest first.
    pub closed spec fn log(&self) -> Seq<PinOp> {
        self.log@
    }

    /// The routine accepts every operation.
    pub open spec fn ready(&self) -> bool {
        forall|op: PinOp| call_requires(self.routine(), (op,))
    }

    /// A driver for `drive` that has handed it nothing yet.
    pub fn new(drive: F) -> (d: Self)
        ensures
            d.routine() == drive,
            d.log() == Seq::<PinOp>::empty(),
    {
        PinDriver { drive, log: Ghost(Seq::empty()) }
    }

    /// Hands `op` to the routine and returns its answer.
    pub fn run(&mut self, op: PinOp) -> (r: u8)
        requires
            old(self).ready(),
        ensures
            final(self).routine() == old(self).routine(),
            final(self).log() == old(self).log().push(op),
            call_ensures(old(self).routine(), (op,), r),
    {
        assert(call_requires(self.routine(), (op,)));
        let r = (self.drive)(op);
        self.log = Ghost(self.log@.push(op));
        r
    }
}

/// The clock of the output-only routines for a TCK divisor; none for 0.
pub open spec fn write_clock(divisor: u32) -> Option<WriteClock> {
    if divisor == 0 {
        None
    } else if divisor == 1 {
        Some(WriteClock::Mhz6)
    } else if divisor == 2 {
        Some(WriteClock::Mhz3)
    } else {
        Some(WriteClock::Delay((divisor - 3) as u32))
    }
}

/// The clock of the sampling routines for a TCK divisor; none for 0.
pub open spec fn transfer_clock(divisor: u32) -> Option<TransferClock> {
    if divisor == 0 {
        None
    } else if divisor == 1 {
        Some(TransferClock::Mhz4)
    } else if divisor == 2 {
        Some(TransferClock::Mhz2p8)
    } else if divisor == 3 {
        Some(TransferClock::Mhz2)
    } else {
        Some(TransferClock::Delay((divisor - 4) as u32))
    }
}

/// The operations of a TDI write: one, or none while the clock is stopped.
pub open spec fn tdi_write_ops(divisor: u32, byte: u8, nbits: u8) -> Seq<PinOp> {
    match write_clock(divisor) {
        None => Seq::empty(),
        Some(clock) => seq![PinOp::WriteTdiBits { clock, byte, nbits }],
    }
}

/// The operations of a TMS write: one, or none for more than 7 bits or
/// while the clock is stopped.
pub open spec fn tms_write_ops(divisor: u32, byte: u8, nbits: u8) -> Seq<PinOp> {
    if nbits > 7 {
        Seq::empty()
    } else {
        match write_clock(divisor) {
            None => Seq::empty(),
            Some(clock) => seq![PinOp::WriteTmsBits { clock, byte, nbits }],
        }
    }
}

/// The operations of a TDI transfer: one, or none while the clock is
/// stopped.
pub open spec fn tdi_transfer_ops(divisor: u32, byte: u8, nbits: u8) -> Seq<PinOp> {
    match transfer_clock(divisor) {
        None => Seq::empty(),
        Some(clock) => seq![PinOp::TransferTdiBits { clock, byte, nbits }],
    }
}

/// The operations of a TMS transfer: one, or none for more than 7 bits or
/// while the clock is stopped.
pub open spec fn tms_transfer_ops(divisor: u32, byte: u8, nbits: u8) -> Seq<PinOp> {
    if nbits > 7 {
        Seq::empty()
    } else {
        match transfer_clock(divisor) {
            None => Seq::empty(),
            Some(clock) => seq![PinOp::TransferTmsBits { clock, byte, nbits }],
        }
    }
}

/// The operations of a byte transfer of `tdi`: one whole-byte TDI transfer
/// per byte, in order, or none while the clock is stopped.
pub open spec fn tdi_bytes_ops(divisor: u32, tdi: Seq<u8>) -> Seq<PinOp> {
    match transfer_clock(divisor) {
        None => Seq::empty(),
        Some(clock) => Seq::new(tdi.len(), |i: int| PinOp::TransferTdiBits { clock, byte: tdi[i], nbits: 8 }),
    }
}

/// `r` is what a TDI transfer answers: 0 when the clock is stopped, else
/// an answer of the pins to the transfer.
pub open spec fn tdi_transfer_result<F: Fn(PinOp) -> u8>(
    divisor: u32,
    pins: F,
    byte: u8,
    nbits: u8,
    r: u8,
) -> bool {
    match transfer_clock(divisor) {
        None => r == 0,
        Some(clock) => call_ensures(pins, (PinOp::TransferTdiBits { clock, byte, nbits },), r),
    }
}

/// `r` is what a TMS transfer answers: 0 for more than 7 bits or a stopped
/// clock, else an answer of the pins to the transfer.
pub open spec fn tms_transfer_result<F: Fn(PinOp) -> u8>(
    divisor: u32,
    pins: F,
    byte: u8,
    nbits: u8,
    r: u8,
) -> bool {
    if nbits > 7 {
        r == 0
    } else {
        match transfer_clock(divisor) {
            None => r == 0,
            Some(clock) => call_ensures(pins, (PinOp::TransferTmsBits { clock, byte, nbits },), r),
        }
    }
}

/// The STM32 pin (of port A) that carries ADBUS bit `bit`:
/// TCK on PA5, TDI on PA7, TDO on PA6, TMS on PA4.
pub open spec fn adbus_pin(bit: u32) -> u32 {
    if bit == 0 {
        5
    } else if bit == 1 {
        7
    } else if bit == 2 {
        6
    } else {
        4
    }
}

/// The two-bit mode field of `pin` in a MODER word (0 input, 1 output).
pub open spec fn moder_field(moder: u32, pin: u32) -> u32 {
    (moder >> (2 * pin) as u32) & 3
}

/// Bit `bit` of `x`, as 0 or 1.
pub open spec fn bit_of(x: u8, bit: u32) -> u32 {
    ((x >> bit as u8) & 1) as u32
}

/// The JTAG side of the chip: the TCK divisor that the MPSSE set.
pub struct Hardware {
    mpsse_divisor: u32,
}

impl Hardware {
    /// The current TCK divisor.
    pub closed spec fn divisor(&self) -> u32 {
        self.mpsse_divisor
    }

    /// Hardware clocked at the fastest rate (divisor 1).
    pub fn new() -> (h: Self)
        ensures
            h.divisor() == 1,
    {
        Hardware { mpsse_divisor: 1 }
    }

    /// The serial port drives no pin direction; the direction is ignored.
    pub fn set_gpio_direction_serial(&self, direction: u8) {
        let _ = direction;
    }

    /// The serial port has no baud rate generator yet; the rate is ignored.
    pub fn serial_set_baud_rate(&self, baud_rate: u32) {
        let _ = baud_rate;
    }

    /// Sets the TCK divisor (1 is the fastest clock, 0 stops it).
    pub fn mpsse_set_tck_divisor(&mut self, divisor: u32)
        ensures
            final(self).divisor() == divisor,
    {
        self.mpsse_divisor = divisor;
    }

    /// The MODER word of port A after the four low ADBUS bits of
    /// `direction` set their pins to output (bit set) or input (bit clear);
    /// every other field of `moder` is kept.
    pub fn set_gpio_direction_mpsse(moder: u32, direction: u8) -> (r: u32)
        ensures
            r & 0xffff_00ff == moder & 0xffff_00ff,
            moder_field(r, adbus_pin(0)) == bit_of(direction, 0),
            moder_field(r, adbus_pin(1)) == bit_of(direction, 1),
            moder_field(r, adbus_pin(2)) == bit_of(direction, 2),
            moder_field(r, adbus_pin(3)) == bit_of(direction, 3),
    {
        let f5: u32 = if direction & 1 != 0 { 0x0400 } else { 0 };
        let f7: u32 = if direction & 2 != 0 { 0x4000 } else { 0 };
        let f6: u32 = if direction & 4 != 0 { 0x1000 } else { 0 };
        let f4: u32 = if direction & 8 != 0 { 0x0100 } else { 0 };
        let r = (moder & 0xffff_00ff) | f5 | f7 | f6 | f4;
        assert(r & 0xffff_00ff == moder & 0xffff_00ff) by (bit_vector)
            requires
                r == (moder & 0xffff_00ff) | f5 | f7 | f6 | f4,
                f5 == 0 || f5 == 0x0400,
                f7 == 0 || f7 == 0x4000,
                f6 == 0 || f6 == 0x1000,
                f4 == 0 || f4 == 0x0100,
        ;
        assert(((r >> 10u32) & 3) == ((direction >> 0u8) & 1) as u32) by (bit_vector)
            requires
                r == (moder & 0xffff_00ff) | f5 | f7 | f6 | f4,
                f5 == (if direction & 1 != 0 { 0x0400u32 } else { 0u32 }),
                f7 == 0 || f7 == 0x4000,
                f6 == 0 || f6 == 0x1000,
                f4 == 0 || f4 == 0x0100,
        ;
        assert(((r >> 14u32) & 3) == ((direction >> 1u8) & 1) as u32) by (bit_vector)
            requires
                r == (moder & 0xffff_00ff) | f5 | f7 | f6 | f4,
                f7 == (if direction & 2 != 0 { 0x4000u32 } else { 0u32 }),
                f5 == 0 || f5 == 0x0400,
                f6 == 0 || f6 == 0x1000,
                f4 == 0 || f4 == 0x0100,
        ;
        assert(((r >> 12u32) & 3) == ((direction >> 2u8) & 1) as u32) by (bit_vector)
            requires
                r == (moder & 0xffff_00ff) | f5 | f7 | f6 | f4,
                f6 == (if direction & 4 != 0 { 0x1000u32 } else { 0u32 }),
                f5 == 0 || f5 == 0x0400,
                f7 == 0 || f7 == 0x4000,
                f4 == 0 || f4 == 0x0100,
        ;
        assert(((r >> 8u32) & 3) == ((direction >> 3u8) & 1) as u32) by (bit_vector)
            requires
                r == (moder & 0xffff_00ff) | f5 | f7 | f6 | f4,
                f4 == (if direction & 8 != 0 { 0x0100u32 } else { 0u32 }),
                f5 == 0 || f5 == 0x0400,
                f7 == 0 || f7 == 0x4000,
                f6 == 0 || f6 == 0x1000,
        ;
        r
    }
    /// The BSRR word of port A that drives each of the four low ADBUS pins
    /// high (set bit) or low (reset bit, 16 places up) after `value`, and
    /// touches no other pin.
    pub fn mpsse_gpio_bsrr(value: u8) -> (r: u32)
        ensures
            r & !0x00f0_00f0u32 == 0,
            (r >> adbus_pin(0)) & 1 == bit_of(value, 0),
            (r >> (adbus_pin(0) + 16) as u32) & 1 == 1 - bit_of(value, 0),
            (r >> adbus_pin(1)) & 1 == bit_of(value, 1),
            (r >> (adbus_pin(1) + 16) as u32) & 1 == 1 - bit_of(value, 1),
            (r >> adbus_pin(2)) & 1 == bit_of(value, 2),
            (r >> (adbus_pin(2) + 16) as u32) & 1 == 1 - bit_of(value, 2),
            (r >> adbus_pin(3)) & 1 == bit_of(value, 3),
            (r >> (adbus_pin(3) + 16) as u32) & 1 == 1 - bit_of(value, 3),
    {
        let b5: u32 = if value & 1 != 0 { 1u32 << 5u32 } else { 1u32 << 21u32 };
        let b7: u32 = if value & 2 != 0 { 1u32 << 7u32 } else { 1u32 << 23u32 };
        let b6: u32 = if value & 4 != 0 { 1u32 << 6u32 } else { 1u32 << 22u32 };
        let b4: u32 = if value & 8 != 0 { 1u32 << 4u32 } else { 1u32 << 20u32 };
        let r = b5 | b7 | b6 | b4;
        assert({
            &&& r & !0x00f0_00f0u32 == 0
            &&& (r >> 5u32) & 1 == ((value >> 0u8) & 1) as u32
            &&& (r >> 21u32) & 1 == 1 - ((value >> 0u8) & 1) as u32
            &&& (r >> 7u32) & 1 == ((value >> 1u8) & 1) as u32
            &&& (r >> 23u32) & 1 == 1 - ((value >> 1u8) & 1) as u32
            &&& (r >> 6u32) & 1 == ((value >> 2u8) & 1) as u32
            &&& (r >> 22u32) & 1 == 1 - ((value >> 2u8) & 1) as u32
            &&& (r >> 4u32) & 1 == ((value >> 3u8) & 1) as u32
            &&& (r >> 20u32) & 1 == 1 - ((value >> 3u8) & 1) as u32
        }) by (bit_vector)
            requires
                r == b5 | b7 | b6 | b4,
                b5 == (if value & 1 != 0 { 1u32 << 5u32 } else { 1u32 << 21u32 }),
                b7 == (if value & 2 != 0 { 1u32 << 7u32 } else { 1u32 << 23u32 }),
                b6 == (if value & 4 != 0 { 1u32 << 6u32 } else { 1u32 << 22u32 }),
                b4 == (if value & 8 != 0 { 1u32 << 4u32 } else { 1u32 << 20u32 }),
        ;
        r
    }

    /// Hands the pins the setting of direction and level of the four low
    /// ADBUS pins.
    pub fn mpsse_set_gpio_value<F: Fn(PinOp) -> u8>(&self, direction: u8, value: u8, pins: &mut PinDriver<F>)
        requires
            old(pins).ready(),
        ensures
            final(pins).routine() == old(pins).routine(),
            final(pins).log() == old(pins).log().push(PinOp::SetGpio { direction, value }),
    {
        let _ = pins.run(PinOp::SetGpio { direction, value });
    }

    /// Clocks `nbits` bits of `byte` out on TDI at the current divisor
    /// (nothing while the clock is stopped).
    pub fn mpsse_write_tdi_bits_lsb_mode0<F: Fn(PinOp) -> u8>(&self, byte: u8, nbits: u8, pins: &mut PinDriver<F>)
        requires
            old(pins).ready(),
        ensures
            final(pins).routine() == old(pins).routine(),
            final(pins).log() == old(pins).log() + tdi_write_ops(self.divisor(), byte, nbits),
    {
        let div = self.mpsse_divisor;
        let clock = if div == 0 {
            assert(pins.log() + Seq::<PinOp>::empty() =~= pins.log());
            return;
        } else if div == 1 {
            WriteClock::Mhz6
        } else if div == 2 {
            WriteClock::Mhz3
        } else {
            WriteClock::Delay(div - 3)
        };
        let ghost before = pins.log();
        let _ = pins.run(PinOp::WriteTdiBits { clock, byte, nbits });
        assert(pins.log() =~= before + tdi_write_ops(self.divisor(), byte, nbits));
    }

    /// Clocks `nbits` bits of `byte` out on TDI at the current divisor and
    /// returns the TDO bits sampled (0, and nothing clocked, while the clock
    /// is stopped).
    pub fn mpsse_transfer_tdi_bits_lsb_mode0<F: Fn(PinOp) -> u8>(&self, byte: u8, nbits: u8, pins: &mut PinDriver<F>) -> (r: u8)
        requires
            old(pins).ready(),
        ensures
            final(pins).routine() == old(pins).routine(),
            final(pins).log() == old(pins).log() + tdi_transfer_ops(self.divisor(), byte, nbits),
            tdi_transfer_result(self.divisor(), old(pins).routine(), byte, nbits, r),
    {
        let div = self.mpsse_divisor;
        let clock = if div == 0 {
            assert(pins.log() + Seq::<PinOp>::empty() =~= pins.log());
            return 0x00;
        } else if div == 1 {
            TransferClock::Mhz4
        } else if div == 2 {
            TransferClock::Mhz2p8
        } else if div == 3 {
            TransferClock::Mhz2
        } else {
            TransferClock::Delay(div - 4)
        };
        let ghost before = pins.log();
        let r = pins.run(PinOp::TransferTdiBits { clock, byte, nbits });
        assert(pins.log() =~= before + tdi_transfer_ops(self.divisor(), byte, nbits));
        r
    }

    /// Transfers whole bytes on TDI/TDO: each byte of `tdi_bytes` that has a
    /// slot in `tdo_bytes` is clocked out, in order, and the sampled byte
    /// stored there; bytes without a slot are not clocked.
    pub fn mpsse_transfer_tdi_bytes_lsb_mode0<F: Fn(PinOp) -> u8>(
        &self,
        tdi_bytes: &[u8],
        tdo_bytes: &mut [u8],
        pins: &mut PinDriver<F>,
    )
        requires
            old(pins).ready(),
        ensures
            final(pins).routine() == old(pins).routine(),
            final(pins).log() == old(pins).log() + tdi_bytes_ops(
                self.divisor(),
                tdi_bytes@.take(
                    if tdi_bytes@.len() < old(tdo_bytes)@.len() {
                        tdi_bytes@.len() as int
                    } else {
                        old(tdo_bytes)@.len() as int
                    },
                ),
            ),
            final(tdo_bytes)@.len() == old(tdo_bytes)@.len(),
            forall|i: int|
                0 <= i < tdi_bytes@.len() && 0 <= i < old(tdo_bytes)@.len() ==> tdi_transfer_result(
                    self.divisor(),
                    old(pins).routine(),
                    tdi_bytes@[i],
                    8,
                    #[trigger] final(tdo_bytes)@[i],
                ),
            forall|i: int|
                tdi_bytes@.len() <= i < old(tdo_bytes)@.len() ==> #[trigger] final(tdo_bytes)@[i]
                    == old(tdo_bytes)@[i],
    {
        let n = if tdi_bytes.len() < tdo_bytes.len() { tdi_bytes.len() } else { tdo_bytes.len() };
        let ghost log0 = pins.log();
        let mut i: usize = 0;
        assert(tdi_bytes_ops(self.divisor(), tdi_bytes@.take(0)) =~= Seq::<PinOp>::empty());
        assert(log0 + Seq::<PinOp>::empty() =~= log0);
        while i < n
            invariant
                pins.ready(),
                pins.routine() == old(pins).routine(),
                log0 == old(pins).log(),
                pins.log() == log0 + tdi_bytes_ops(self.divisor(), tdi_bytes@.take(i as int)),
                n <= tdi_bytes@.len(),
                n <= tdo_bytes@.len(),
                n == tdi_bytes@.len() || n == old(tdo_bytes)@.len(),
                tdo_bytes@.len() == old(tdo_bytes)@.len(),
                i <= n,
                forall|j: int|
                    0 <= j < i ==> tdi_transfer_result(
                        self.divisor(),
                        old(pins).routine(),
                        tdi_bytes@[j],
                        8,
                        #[trigger] tdo_bytes@[j],
                    ),
                forall|j: int| i <= j < tdo_bytes@.len() ==> #[trigger] tdo_bytes@[j] == old(tdo_bytes)@[j],
            decreases n - i,
        {
            let ghost before = pins.log();
            let b = self.mpsse_transfer_tdi_bits_lsb_mode0(tdi_bytes[i], 8, pins);
            tdo_bytes[i] = b;
            proof {
                assert(tdi_bytes_ops(self.divisor(), tdi_bytes@.take(i + 1)) =~= tdi_bytes_ops(
                    self.divisor(),
                    tdi_bytes@.take(i as int),
                ) + tdi_transfer_ops(self.divisor(), tdi_bytes@[i as int], 8));
                assert(pins.log() =~= log0 + tdi_bytes_ops(self.divisor(), tdi_bytes@.take(i + 1)));
            }
            i = i + 1;
        }
    }

    /// Clocks `nbits` bits of `byte` out on TMS at the current divisor
    /// (nothing for more than 7 bits or while the clock is stopped).
    pub fn mpsse_write_tms_bits_lsb_mode0<F: Fn(PinOp) -> u8>(&self, byte: u8, nbits: u8, pins: &mut PinDriver<F>)
        requires
            old(pins).ready(),
        ensures
            final(pins).routine() == old(pins).routine(),
            final(pins).log() == old(pins).log() + tms_write_ops(self.divisor(), byte, nbits),
    {
        if nbits > 7 {
            assert(pins.log() + Seq::<PinOp>::empty() =~= pins.log());
            return;
        }
        let div = self.mpsse_divisor;
        let clock = if div == 0 {
            assert(pins.log() + Seq::<PinOp>::empty() =~= pins.log());
            return;
        } else if div == 1 {
            WriteClock::Mhz6
        } else if div == 2 {
            WriteClock::Mhz3
        } else {
            WriteClock::Delay(div - 3)
        };
        let ghost before = pins.log();
        let _ = pins.run(PinOp::WriteTmsBits { clock, byte, nbits });
        assert(pins.log() =~= before + tms_write_ops(self.divisor(), byte, nbits));
    }

    /// Clocks `nbits` bits of `byte` out on TMS at the current divisor and
    /// returns the TDO bits sampled (0, and nothing clocked, for more than 7
    /// bits or while the clock is stopped).
    pub fn mpsse_transfer_tms_bits_lsb_mode0<F: Fn(PinOp) -> u8>(&self, byte: u8, nbits: u8, pins: &mut PinDriver<F>) -> (r: u8)
        requires
            old(pins).ready(),
        ensures
            final(pins).routine() == old(pins).routine(),
            final(pins).log() == old(pins).log() + tms_transfer_ops(self.divisor(), byte, nbits),
            tms_transfer_result(self.divisor(), old(pins).routine(), byte, nbits, r),
    {
        if nbits > 7 {
            assert(pins.log() + Seq::<PinOp>::empty() =~= pins.log());
            return 0x00;
        }
        let div = self.mpsse_divisor;
        let clock = if div == 0 {
            assert(pins.log() + Seq::<PinOp>::empty() =~= pins.log());
            return 0x00;
        } else if div == 1 {
            TransferClock::Mhz4
        } else if div == 2 {
            TransferClock::Mhz2p8
        } else if div == 3 {
            TransferClock::Mhz2
        } else {
            TransferClock::Delay(div - 4)
        };
        let ghost before = pins.log();
        let r = pins.run(PinOp::TransferTmsBits { clock, byte, nbits });
        assert(pins.log() =~= before + tms_transfer_ops(self.divisor(), byte, nbits));
        r
    }
}

/// The clocks a TCK divisor selects: divisor 0 stops the clock; the
/// output-only routines run at 6 MHz for 1, 3 MHz for 2 and a delay loop of
/// n - 3 for n >= 3; the sampling routines at 4 MHz for 1, 2.8 MHz for 2,
/// 2 MHz for 3 and a delay loop of n - 4 for n >= 4.
pub proof fn lemma_clocks(divisor: u32)
    ensures
        divisor == 0 <==> write_clock(divisor) is None,
        divisor == 0 <==> transfer_clock(divisor) is None,
        divisor == 1 ==> write_clock(divisor) == Some(WriteClock::Mhz6),
        divisor == 2 ==> write_clock(divisor) == Some(WriteClock::Mhz3),
        divisor >= 3 ==> write_clock(divisor) == Some(WriteClock::Delay((divisor - 3) as u32)),
        divisor == 1 ==> transfer_clock(divisor) == Some(TransferClock::Mhz4),
        divisor == 2 ==> transfer_clock(divisor) == Some(TransferClock::Mhz2p8),
        divisor == 3 ==> transfer_clock(divisor) == Some(TransferClock::Mhz2),
        divisor >= 4 ==> transfer_clock(divisor) == Some(TransferClock::Delay((divisor - 4) as u32)),
{
}

/// While the clock runs, a TDI write or transfer hands the pins exactly one
/// operation, with the byte and the bit count asked for, whatever the bit
/// count; a TMS write or transfer does the same for 1 to 7 bits and hands
/// nothing for more. While the clock is stopped nothing is handed.
pub proof fn lemma_single_ops(divisor: u32, byte: u8, nbits: u8)
    ensures
        divisor == 0 ==> tdi_write_ops(divisor, byte, nbits).len() == 0 && tms_write_ops(
            divisor,
            byte,
            nbits,
        ).len() == 0 && tdi_transfer_ops(divisor, byte, nbits).len() == 0 && tms_transfer_ops(
            divisor,
            byte,
            nbits,
        ).len() == 0,
        nbits > 7 ==> tms_write_ops(divisor, byte, nbits).len() == 0 && tms_transfer_ops(
            divisor,
            byte,
            nbits,
        ).len() == 0,
        forall|c: WriteClock|
            write_clock(divisor) == Some(c) ==> tdi_write_ops(divisor, byte, nbits) == seq![
                PinOp::WriteTdiBits { clock: c, byte, nbits },
            ],
        forall|c: WriteClock|
            write_clock(divisor) == Some(c) && nbits <= 7 ==> tms_write_ops(divisor, byte, nbits)
                == seq![PinOp::WriteTmsBits { clock: c, byte, nbits }],
        forall|c: TransferClock|
            transfer_clock(divisor) == Some(c) ==> tdi_transfer_ops(divisor, byte, nbits) == seq![
                PinOp::TransferTdiBits { clock: c, byte, nbits },
            ],
        forall|c: TransferClock|
            transfer_clock(divisor) == Some(c) && nbits <= 7 ==> tms_transfer_ops(divisor, byte, nbits)
                == seq![PinOp::TransferTmsBits { clock: c, byte, nbits }],
{
}

/// While the clock runs, a byte transfer of `tdi` hands the pins one
/// whole-byte TDI transfer per byte, in the order of `tdi`; while it is
/// stopped, nothing.
pub proof fn lemma_bytes_ops(divisor: u32, tdi: Seq<u8>)
    ensures
        divisor == 0 ==> tdi_bytes_ops(divisor, tdi).len() == 0,
        forall|c: TransferClock|
            transfer_clock(divisor) == Some(c) ==> {
                &&& tdi_bytes_ops(divisor, tdi).len() == tdi.len()
                &&& forall|i: int|
                    0 <= i < tdi.len() ==> #[trigger] tdi_bytes_ops(divisor, tdi)[i] == (PinOp::TransferTdiBits {
                        clock: c,
                        byte: tdi[i],
                        nbits: 8,
                    })
            },
{
}

/// A transfer answers 0 while the clock is stopped (and, for TMS, for more
/// than 7 bits); otherwise it answers what the pins answer to its one
/// operation.
pub proof fn lemma_transfer_answers<F: Fn(PinOp) -> u8>(
    divisor: u32,
    pins: F,
    byte: u8,
    nbits: u8,
    r: u8,
)
    ensures
        divisor == 0 ==> (tdi_transfer_result(divisor, pins, byte, nbits, r) <==> r == 0),
        divisor == 0 || nbits > 7 ==> (tms_transfer_result(divisor, pins, byte, nbits, r) <==> r == 0),
        forall|c: TransferClock|
            transfer_clock(divisor) == Some(c) ==> (tdi_transfer_result(divisor, pins, byte, nbits, r)
                <==> call_ensures(pins, (PinOp::TransferTdiBits { clock: c, byte, nbits },), r)),
        forall|c: TransferClock|
            transfer_clock(divisor) == Some(c) && nbits <= 7 ==> (tms_transfer_result(
                divisor,
                pins,
                byte,
                nbits,
                r,
            ) <==> call_ensures(pins, (PinOp::TransferTmsBits { clock: c, byte, nbits },), r)),
{
}

/// The pinout: ADBUS0 (TCK) on PA5, ADBUS1 (TDI) on PA7, ADBUS2 (TDO) on
/// PA6, ADBUS3 (TMS) on PA4; a MODER field is two bits per pin and a bit of
/// a byte is 0 or 1.
pub proof fn lemma_pinout(moder: u32, x: u8)
    ensures
        adbus_pin(0) == 5,
        adbus_pin(1) == 7,
        adbus_pin(2) == 6,
        adbus_pin(3) == 4,
        moder_field(moder, 5) == (moder >> 10u32) & 3,
        moder_field(moder, 7) == (moder >> 14u32) & 3,
        moder_field(moder, 6) == (moder >> 12u32) & 3,
        moder_field(moder, 4) == (moder >> 8u32) & 3,
        bit_of(x, 0) == x as u32 % 2,
        bit_of(x, 1) == x as u32 / 2 % 2,
        bit_of(x, 2) == x as u32 / 4 % 2,
        bit_of(x, 3) == x as u32 / 8 % 2,
{
    assert(((x >> 0u8) & 1) as u32 == x as u32 % 2) by (bit_vector);
    assert(((x >> 1u8) & 1) as u32 == x as u32 / 2 % 2) by (bit_vector);
    assert(((x >> 2u8) & 1) as u32 == x as u32 / 4 % 2) by (bit_vector);
    assert(((x >> 3u8) & 1) as u32 == x as u32 / 8 % 2) by (bit_vector);
}

} // verus!
