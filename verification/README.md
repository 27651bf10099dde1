# f042-ftdi

An FT2232D emulation firmware for an STM32F042 microcontroller: port A of
the emulated chip is an MPSSE driving JTAG on PA4 (TMS), PA5 (TCK), PA6
(TDO) and PA7 (TDI); port B is a serial port (for now it sends back what it
receives).

- `src/` is the verified library:
  - `buffer.rs`: the fixed-size byte buffers of a port;
  - `hardware.rs`: the TCK divisor, the choice of clocked shift routine it
    makes, and the GPIO register words of the four JTAG pins;
  - `mpsse.rs`: what an MPSSE command, and a run of them, does;
  - `control.rs`: the FTDI vendor control requests;
  - `ftdi.rs`: a port: its modes, its requests, receiving, processing and
    transmitting.
- `app/` is the firmware around it: clocks, USB endpoints and device
  descriptor, and the pin routine that performs each pin operation on the
  registers and in the assembly shift routines.
