//! A 16550A-class UART with 64-byte receive and transmit FIFOs. Every
//! register access returns the side effects the caller must perform on
//! the host: an interrupt-line transition (redundant transitions are
//! suppressed) and bytes for the host console.

use vstd::prelude::*;
use std::collections::VecDeque;
use crate::device::{IoEffects, PortIoDevice, PortRange};

verus! {

pub const FIFO_LEN: usize = 64;

pub const UART_IER_RDI: u8 = 0x01;
pub const UART_IER_THRI: u8 = 0x02;
pub const UART_IIR_NO_INT: u8 = 0x01;
pub const UART_IIR_THRI: u8 = 0x02;
pub const UART_IIR_RDI: u8 = 0x04;
pub const UART_IIR_FIFO_ENABLED: u8 = 0xc0;
pub const UART_FCR_CLEAR_RCVR: u8 = 0x02;
pub const UART_FCR_CLEAR_XMIT: u8 = 0x04;
pub const UART_LCR_DLAB: u8 = 0x80;
pub const UART_LSR_DR: u8 = 0x01;
pub const UART_LSR_BI: u8 = 0x10;
pub const UART_LSR_THRE: u8 = 0x20;
pub const UART_LSR_TEMT: u8 = 0x40;
pub const UART_MCR_OUT2: u8 = 0x08;
pub const UART_MCR_LOOP: u8 = 0x10;
pub const UART_MSR_CTS: u8 = 0x10;
pub const UART_MSR_DSR: u8 = 0x20;
pub const UART_MSR_DCD: u8 = 0x80;

/// The UART's abstract state: the register shadows and the contents of
/// the two FIFOs.
#[verifier::ext_equal]
pub struct SerialV {
    pub base_port: u16,
    pub irq_number: u8,
    pub irq_state: u8,
    pub dll: u8,
    pub dlm: u8,
    pub iir: u8,
    pub ier: u8,
    pub fcr: u8,
    pub lcr: u8,
    pub mcr: u8,
    pub lsr: u8,
    pub msr: u8,
    pub scr: u8,
    pub rx: Seq<u8>,
    pub tx: Seq<u8>,
}

/// The emulated UART.
pub struct Serial {
    pub base_port: u16,
    pub irq_number: u8,
    pub irq_state: u8,
    pub dll: u8,
    pub dlm: u8,
    pub iir: u8,
    pub ier: u8,
    pub fcr: u8,
    pub lcr: u8,
    pub mcr: u8,
    pub lsr: u8,
    pub msr: u8,
    pub scr: u8,
    pub rx_buf: VecDeque<u8>,
    pub tx_buf: VecDeque<u8>,
}

impl View for Serial {
    type V = SerialV;

    open spec fn view(&self) -> SerialV {
        SerialV {
            base_port: self.base_port,
            irq_number: self.irq_number,
            irq_state: self.irq_state,
            dll: self.dll,
            dlm: self.dlm,
            iir: self.iir,
            ier: self.ier,
            fcr: self.fcr,
            lcr: self.lcr,
            mcr: self.mcr,
            lsr: self.lsr,
            msr: self.msr,
            scr: self.scr,
            rx: self.rx_buf@,
            tx: self.tx_buf@,
        }
    }
}

/// Both FIFOs respect their capacity.
pub open spec fn serial_wf(v: SerialV) -> bool {
    v.rx.len() <= 64 && v.tx.len() <= 64
}

/// The FIFO-drain quirk applied at the head of every interrupt update:
/// the clear-receiver and clear-transmit bits latched in LCR drain the
/// corresponding FIFO and reset its line-status bits.
pub open spec fn serial_drained(v: SerialV) -> SerialV {
    let v1 = if v.lcr & UART_FCR_CLEAR_RCVR != 0 {
        SerialV {
            lcr: v.lcr & !UART_FCR_CLEAR_RCVR,
            rx: Seq::empty(),
            lsr: v.lsr & !UART_LSR_DR,
            ..v
        }
    } else {
        v
    };
    if v1.lcr & UART_FCR_CLEAR_XMIT != 0 {
        SerialV {
            lcr: v1.lcr & !UART_FCR_CLEAR_XMIT,
            tx: Seq::empty(),
            lsr: v1.lsr | (UART_LSR_TEMT | UART_LSR_THRE),
            ..v1
        }
    } else {
        v1
    }
}

/// The pending-interrupt identification composed from the enabled
/// sources: received data and transmitter-empty.
pub open spec fn serial_iir_of(v: SerialV) -> u8 {
    let rdi: u8 = if v.ier & UART_IER_RDI != 0 && v.lsr & UART_LSR_DR != 0 {
        UART_IIR_RDI
    } else {
        0
    };
    let thri: u8 = if v.ier & UART_IER_THRI != 0 && v.lsr & UART_LSR_TEMT != 0 {
        UART_IIR_THRI
    } else {
        0
    };
    (rdi + thri) as u8
}

/// One run of the interrupt update: drain latched FIFO clears, compose
/// the interrupt state, emit a line transition only when the level
/// changes, and flush the transmitter to the host unless the
/// transmitter-empty interrupt is armed. Yields the new state, the
/// line transition (if any), and the bytes handed to the host.
pub open spec fn serial_update_irq_spec(v0: SerialV) -> (SerialV, Option<bool>, Seq<u8>) {
    let d = serial_drained(v0);
    let iir = serial_iir_of(d);
    let line: Option<bool> = if iir != 0 {
        if d.irq_state == 0 {
            Some(true)
        } else {
            None
        }
    } else {
        if d.irq_state != 0 {
            Some(false)
        } else {
            None
        }
    };
    let niir: u8 = if iir != 0 {
        iir
    } else {
        UART_IIR_NO_INT
    };
    let d2 = SerialV { iir: niir, irq_state: iir, ..d };
    if d2.ier & UART_IER_THRI == 0 {
        (
            SerialV { lsr: d2.lsr | (UART_LSR_TEMT | UART_LSR_THRE), tx: Seq::empty(), ..d2 },
            line,
            d2.tx,
        )
    } else {
        (d2, line, Seq::empty())
    }
}

/// The register-read step, before the interrupt update: the new state
/// and the byte placed in the guest's buffer.
pub open spec fn serial_read_reg_spec(v: SerialV, port: u16, b0: u8) -> (SerialV, u8) {
    let reg = port - v.base_port;
    if reg == 0 {
        if v.lcr & UART_LCR_DLAB != 0 {
            (v, v.dll)
        } else if v.rx.len() == 0 {
            (v, b0)
        } else if v.lsr & UART_LSR_BI != 0 {
            (SerialV { lsr: v.lsr & !UART_LSR_BI, ..v }, 0)
        } else {
            let nv = SerialV {
                rx: v.rx.drop_first(),
                lsr: if v.rx.len() == 1 {
                    v.lsr & !UART_LSR_DR
                } else {
                    v.lsr
                },
                ..v
            };
            (nv, v.rx.first())
        }
    } else if reg == 1 {
        if v.lcr & UART_LCR_DLAB != 0 {
            (v, v.dlm)
        } else {
            (v, v.ier)
        }
    } else if reg == 2 {
        (v, v.iir | UART_IIR_FIFO_ENABLED)
    } else if reg == 3 {
        (v, v.lcr)
    } else if reg == 4 {
        (v, v.mcr)
    } else if reg == 5 {
        (v, v.lsr)
    } else if reg == 6 {
        (v, v.msr)
    } else if reg == 7 {
        (v, v.scr)
    } else {
        (v, b0)
    }
}

/// A whole guest read: the register step followed by the interrupt
/// update; an empty guest buffer is ignored entirely.
pub open spec fn serial_read_spec(v: SerialV, port: u16, data: Seq<u8>) -> (
    SerialV,
    Seq<u8>,
    Option<bool>,
    Seq<u8>,
) {
    if data.len() == 0 {
        (v, data, None, Seq::empty())
    } else {
        let (v1, b) = serial_read_reg_spec(v, port, data[0]);
        let (v2, line, tx) = serial_update_irq_spec(v1);
        (v2, data.update(0, b), line, tx)
    }
}

/// The register-write step, before the interrupt update.
pub open spec fn serial_write_reg_spec(v: SerialV, port: u16, b: u8) -> SerialV {
    let reg = port - v.base_port;
    if reg == 0 {
        if v.lcr & UART_LCR_DLAB != 0 {
            SerialV { dll: b, ..v }
        } else if v.mcr & UART_MCR_LOOP != 0 {
            if v.rx.len() < 64 {
                SerialV { rx: v.rx.push(b), lsr: v.lsr | UART_LSR_DR, ..v }
            } else {
                v
            }
        } else if v.tx.len() < 64 {
            let nlsr: u8 = if v.tx.len() + 1 == 32 {
                (v.lsr & !UART_LSR_TEMT) & !UART_LSR_THRE
            } else {
                v.lsr & !UART_LSR_TEMT
            };
            // The transmitter is flushed by the interrupt update or by
            // a later access; here the byte only enters the FIFO.
            SerialV { tx: v.tx.push(b), lsr: nlsr, ..v }
        } else {
            SerialV { lsr: v.lsr & !(UART_LSR_TEMT | UART_LSR_THRE), ..v }
        }
    } else if reg == 1 {
        if v.lcr & UART_LCR_DLAB != 0 {
            SerialV { dlm: b, ..v }
        } else {
            SerialV { ier: b & 0xf, ..v }
        }
    } else if reg == 2 {
        SerialV { fcr: b, ..v }
    } else if reg == 3 {
        SerialV { lcr: b, ..v }
    } else if reg == 4 {
        SerialV { mcr: b, ..v }
    } else if reg == 7 {
        SerialV { scr: b, ..v }
    } else {
        v
    }
}

/// A whole guest write: the register step followed by the interrupt
/// update (which also flushes the transmitter when the guest write
/// path calls for it); an empty buffer is ignored entirely.
pub open spec fn serial_write_spec(v: SerialV, port: u16, data: Seq<u8>) -> (
    SerialV,
    Option<bool>,
    Seq<u8>,
    Seq<u8>,
) {
    if data.len() == 0 {
        (v, None, Seq::empty(), Seq::empty())
    } else {
        let v1 = serial_write_reg_spec(v, port, data[0]);
        let reg = port - v.base_port;
        // A byte entering the transmit FIFO is flushed to the host at once.
        let hit_tx = reg == 0 && v.lcr & UART_LCR_DLAB == 0 && v.mcr & UART_MCR_LOOP == 0
            && v.tx.len() < 64;
        let immediate: Seq<u8> = if hit_tx {
            v1.tx
        } else {
            Seq::empty()
        };
        let v1f = if hit_tx {
            SerialV { lsr: v1.lsr | (UART_LSR_TEMT | UART_LSR_THRE), tx: Seq::empty(), ..v1 }
        } else {
            v1
        };
        let (v2, line, tx2) = serial_update_irq_spec(v1f);
        (v2, line, immediate + tx2, tx2)
    }
}

/// A byte arriving from the host: enqueued unless loopback is active
/// or the FIFO is full, then the interrupt update.
pub open spec fn serial_queue_rx_spec(v: SerialV, b: u8) -> (SerialV, Option<bool>, Seq<u8>) {
    let v1 = if v.mcr & UART_MCR_LOOP == 0 && v.rx.len() < 64 {
        SerialV { rx: v.rx.push(b), lsr: v.lsr | UART_LSR_DR, ..v }
    } else {
        v
    };
    serial_update_irq_spec(v1)
}

impl Serial {
    /// A COM port: number 0 to 3 selects the conventional base port and
    /// its pinned interrupt line. The line status starts with the
    /// transmitter empty, the modem status with carrier, data-set-ready
    /// and clear-to-send.
    pub fn new(n: u8) -> (r: Serial)
        requires
            n < 4,
        ensures
            r@.base_port == (if n == 0 {
                0x3f8u16
            } else if n == 1 {
                0x2f8u16
            } else if n == 2 {
                0x3e8u16
            } else {
                0x2e8u16
            }),
            r@.irq_number == (if n == 0 || n == 2 {
                4u8
            } else {
                3u8
            }),
            r@.irq_state == 0,
            r@.dll == 0 && r@.dlm == 0,
            r@.iir == UART_IIR_NO_INT,
            r@.ier == 0 && r@.fcr == 0 && r@.lcr == 0 && r@.mcr == 0,
            r@.lsr == UART_LSR_TEMT | UART_LSR_THRE,
            r@.msr == UART_MSR_DCD | UART_MSR_DSR | UART_MSR_CTS,
            r@.scr == UART_MCR_OUT2,
            r@.rx == Seq::<u8>::empty(),
            r@.tx == Seq::<u8>::empty(),
            serial_wf(r@),
    {
        let (base_port, irq_number): (u16, u8) = if n == 0 {
            (0x3f8, 4)
        } else if n == 1 {
            (0x2f8, 3)
        } else if n == 2 {
            (0x3e8, 4)
        } else {
            (0x2e8, 3)
        };
        Serial {
            base_port,
            irq_number,
            irq_state: 0,
            dll: 0,
            dlm: 0,
            iir: UART_IIR_NO_INT,
            ier: 0,
            fcr: 0,
            lcr: 0,
            mcr: 0,
            lsr: UART_LSR_TEMT | UART_LSR_THRE,
            msr: UART_MSR_DCD | UART_MSR_DSR | UART_MSR_CTS,
            scr: UART_MCR_OUT2,
            rx_buf: VecDeque::new(),
            tx_buf: VecDeque::new(),
        }
    }

    /// Drain the transmit FIFO into a host buffer and mark the
    /// transmitter empty.
    fn flush_tx(&mut self) -> (out: Vec<u8>)
        ensures
            final(self)@ == (SerialV {
                lsr: old(self)@.lsr | (UART_LSR_TEMT | UART_LSR_THRE),
                tx: Seq::<u8>::empty(),
                ..old(self)@
            }),
            out@ == old(self)@.tx,
    {
        self.lsr = self.lsr | (UART_LSR_TEMT | UART_LSR_THRE);
        let ghost snap: SerialV = self@;
        let mut out: Vec<u8> = Vec::new();
        loop
            invariant
                out@ + self.tx_buf@ == snap.tx,
                self@ == (SerialV { tx: self.tx_buf@, ..snap }),
            ensures
                self.tx_buf@.len() == 0,
                out@ == snap.tx,
                self@ == (SerialV { tx: self.tx_buf@, ..snap }),
            decreases self.tx_buf@.len(),
        {
            match self.tx_buf.pop_front() {
                Some(b) => {
                    out.push(b);
                },
                None => {
                    break ;
                },
            }
        }
        proof {
            assert(self@ =~= (SerialV {
                lsr: old(self)@.lsr | (UART_LSR_TEMT | UART_LSR_THRE),
                tx: Seq::<u8>::empty(),
                ..old(self)@
            }));
        }
        out
    }

    /// Re-evaluate the interrupt line and flush the transmitter when
    /// the transmitter-empty interrupt is not armed.
    fn update_irq(&mut self) -> (fx: IoEffects)
        ensures
            final(self)@ == serial_update_irq_spec(old(self)@).0,
            fx.reset == false,
            fx.irq == (match serial_update_irq_spec(old(self)@).1 {
                Some(level) => Some((old(self)@.irq_number, level)),
                None => None::<(u8, bool)>,
            }),
            fx.host_tx@ == serial_update_irq_spec(old(self)@).2,
            serial_wf(old(self)@) ==> serial_wf(final(self)@),
    {
        if self.lcr & UART_FCR_CLEAR_RCVR != 0 {
            self.lcr = self.lcr & !UART_FCR_CLEAR_RCVR;
            self.rx_buf.clear();
            self.lsr = self.lsr & !UART_LSR_DR;
        }
        if self.lcr & UART_FCR_CLEAR_XMIT != 0 {
            self.lcr = self.lcr & !UART_FCR_CLEAR_XMIT;
            self.tx_buf.clear();
            self.lsr = self.lsr | (UART_LSR_TEMT | UART_LSR_THRE);
        }

        let mut iir: u8 = 0;
        if self.ier & UART_IER_RDI != 0 && self.lsr & UART_LSR_DR != 0 {
            iir = iir + UART_IIR_RDI;
        }
        if self.ier & UART_IER_THRI != 0 && self.lsr & UART_LSR_TEMT != 0 {
            iir = iir + UART_IIR_THRI;
        }
        let mut line: Option<(u8, bool)> = None;
        if iir != 0 {
            self.iir = iir;
            if self.irq_state == 0 {
                line = Some((self.irq_number, true));
            }
        } else {
            self.iir = UART_IIR_NO_INT;
            if self.irq_state != 0 {
                line = Some((self.irq_number, false));
            }
        }
        self.irq_state = iir;

        let host_tx: Vec<u8> = if self.ier & UART_IER_THRI == 0 {
            self.flush_tx()
        } else {
            Vec::new()
        };
        IoEffects { reset: false, irq: line, host_tx }
    }

    /// A byte arriving from the host side.
    pub fn queue_rx(&mut self, data: u8) -> (fx: IoEffects)
        ensures
            final(self)@ == serial_queue_rx_spec(old(self)@, data).0,
            fx.reset == false,
            fx.irq == (match serial_queue_rx_spec(old(self)@, data).1 {
                Some(level) => Some((old(self)@.irq_number, level)),
                None => None::<(u8, bool)>,
            }),
            fx.host_tx@ == serial_queue_rx_spec(old(self)@, data).2,
            serial_wf(old(self)@) ==> serial_wf(final(self)@),
    {
        if self.mcr & UART_MCR_LOOP == 0 && self.rx_buf.len() < FIFO_LEN {
            self.rx_buf.push_back(data);
            self.lsr = self.lsr | UART_LSR_DR;
        }
        self.update_irq()
    }

    /// A guest read of register `port`.
    pub fn read(&mut self, port: u16, data: &mut Vec<u8>) -> (fx: IoEffects)
        requires
            old(self)@.base_port <= port < old(self)@.base_port + 8,
        ensures
            final(self)@ == serial_read_spec(old(self)@, port, old(data)@).0,
            final(data)@ == serial_read_spec(old(self)@, port, old(data)@).1,
            fx.reset == false,
            fx.irq == (match serial_read_spec(old(self)@, port, old(data)@).2 {
                Some(level) => Some((old(self)@.irq_number, level)),
                None => None::<(u8, bool)>,
            }),
            fx.host_tx@ == serial_read_spec(old(self)@, port, old(data)@).3,
            serial_wf(old(self)@) ==> serial_wf(final(self)@),
    {
        if data.len() == 0 {
            return IoEffects { reset: false, irq: None, host_tx: Vec::new() };
        }
        let reg: u16 = port - self.base_port;
        let b0: u8 = data[0];
        let mut b: u8 = b0;
        if reg == 0 {
            if self.lcr & UART_LCR_DLAB != 0 {
                b = self.dll;
            } else if self.rx_buf.len() == 0 {
            } else if self.lsr & UART_LSR_BI != 0 {
                self.lsr = self.lsr & !UART_LSR_BI;
                b = 0;
            } else {
                let popped = self.rx_buf.pop_front();
                b = popped.unwrap();
                if self.rx_buf.len() == 0 {
                    self.lsr = self.lsr & !UART_LSR_DR;
                }
            }
        } else if reg == 1 {
            if self.lcr & UART_LCR_DLAB != 0 {
                b = self.dlm;
            } else {
                b = self.ier;
            }
        } else if reg == 2 {
            b = self.iir | UART_IIR_FIFO_ENABLED;
        } else if reg == 3 {
            b = self.lcr;
        } else if reg == 4 {
            b = self.mcr;
        } else if reg == 5 {
            b = self.lsr;
        } else if reg == 6 {
            b = self.msr;
        } else if reg == 7 {
            b = self.scr;
        }
        data.set(0, b);
        self.update_irq()
    }

    /// A guest write to register `port`.
    pub fn write(&mut self, port: u16, data: &[u8]) -> (fx: IoEffects)
        requires
            old(self)@.base_port <= port < old(self)@.base_port + 8,
        ensures
            final(self)@ == serial_write_spec(old(self)@, port, data@).0,
            fx.reset == false,
            fx.irq == (match serial_write_spec(old(self)@, port, data@).1 {
                Some(level) => Some((old(self)@.irq_number, level)),
                None => None::<(u8, bool)>,
            }),
            fx.host_tx@ == serial_write_spec(old(self)@, port, data@).2,
            serial_wf(old(self)@) ==> serial_wf(final(self)@),
    {
        if data.len() == 0 {
            return IoEffects { reset: false, irq: None, host_tx: Vec::new() };
        }
        let b: u8 = crate::bytes::get_u8(data, 0);
        let reg: u16 = port - self.base_port;
        let mut immediate: Vec<u8> = Vec::new();
        if reg == 0 {
            if self.lcr & UART_LCR_DLAB != 0 {
                self.dll = b;
            } else if self.mcr & UART_MCR_LOOP != 0 {
                if self.rx_buf.len() < FIFO_LEN {
                    self.rx_buf.push_back(b);
                    self.lsr = self.lsr | UART_LSR_DR;
                }
            } else if self.tx_buf.len() < FIFO_LEN {
                self.tx_buf.push_back(b);
                self.lsr = self.lsr & !UART_LSR_TEMT;
                if self.tx_buf.len() == FIFO_LEN / 2 {
                    self.lsr = self.lsr & !UART_LSR_THRE;
                }
                immediate = self.flush_tx();
            } else {
                self.lsr = self.lsr & !(UART_LSR_TEMT | UART_LSR_THRE);
            }
        } else if reg == 1 {
            if self.lcr & UART_LCR_DLAB != 0 {
                self.dlm = b;
            } else {
                self.ier = b & 0xf;
            }
        } else if reg == 2 {
            self.fcr = b;
        } else if reg == 3 {
            self.lcr = b;
        } else if reg == 4 {
            self.mcr = b;
        } else if reg == 7 {
            self.scr = b;
        }
        let fx2 = self.update_irq();
        let mut host_tx = immediate;
        let mut rest = fx2.host_tx;
        host_tx.append(&mut rest);
        IoEffects { reset: false, irq: fx2.irq, host_tx }
    }
}

impl PortIoDevice for Serial {
    open spec fn range_spec(&self) -> PortRange {
        PortRange { base: self@.base_port, len: 8 }
    }

    fn port_range(&self) -> (r: PortRange) {
        PortRange { base: self.base_port, len: 8 }
    }

    fn read(&mut self, port: u16, data: &mut Vec<u8>) -> (fx: IoEffects) {
        self.read(port, data)
    }

    fn write(&mut self, port: u16, data: &[u8]) -> (fx: IoEffects) {
        self.write(port, data)
    }
}

/// After every interrupt update: the interrupt state equals the
/// composed pending sources of the resulting state, the asserted line
/// level is exactly "received data ready with its interrupt enabled,
/// or transmitter empty with its interrupt enabled", and a transition
/// is emitted only when the level actually changes.
pub proof fn lemma_uart_irq_invariant(v0: SerialV)
    ensures
        ({
            let r = serial_update_irq_spec(v0);
            let v1 = r.0;
            let line = r.1;
            &&& v1.irq_state == serial_iir_of(v1)
            &&& (v1.irq_state != 0) == ((v1.ier & UART_IER_RDI != 0 && v1.lsr & UART_LSR_DR != 0)
                || (v1.ier & UART_IER_THRI != 0 && v1.lsr & UART_LSR_TEMT != 0))
            &&& v1.iir == (if v1.irq_state != 0 {
                v1.irq_state
            } else {
                UART_IIR_NO_INT
            })
            &&& (line is None ==> (v1.irq_state != 0) == (v0.irq_state != 0))
            &&& (line is Some ==> line.unwrap() == (v1.irq_state != 0) && line.unwrap() != (
            v0.irq_state != 0))
        }),
{
    let d = serial_drained(v0);
    let l = d.lsr;
    assert((l | (UART_LSR_TEMT | UART_LSR_THRE)) == (l | 0x60u8)) by (bit_vector);
    assert(((l | 0x60u8) & 0x01u8) == (l & 0x01u8)) by (bit_vector);
    assert(((l | 0x60u8) & 0x40u8) == 0x40u8) by (bit_vector);
}

/// Loopback: with `MCR.LOOP` set, no latched FIFO clears, room in the
/// receive FIFO and an idle transmitter, a byte written to the
/// transmit register becomes readable from the receive FIFO, the
/// data-ready bit rises, and nothing reaches the host console.
pub proof fn lemma_uart_loopback(v0: SerialV, b: u8)
    requires
        v0.mcr & UART_MCR_LOOP != 0,
        v0.lcr & UART_LCR_DLAB == 0,
        v0.lcr & UART_FCR_CLEAR_RCVR == 0,
        v0.lcr & UART_FCR_CLEAR_XMIT == 0,
        v0.rx.len() < 64,
        v0.tx.len() == 0,
    ensures
        ({
            let r = serial_write_spec(v0, v0.base_port, seq![b]);
            let v1 = r.0;
            &&& v1.rx == v0.rx.push(b)
            &&& v1.lsr & UART_LSR_DR != 0
            &&& r.2.len() == 0
        }),
{
    let w = serial_write_reg_spec(v0, v0.base_port, b);
    assert(w.rx == v0.rx.push(b));
    let d = serial_drained(w);
    assert(d == w);
    let l0 = v0.lsr;
    assert((l0 | UART_LSR_DR) == (l0 | 0x01u8)) by (bit_vector);
    assert(((l0 | 0x01u8) & 0x01u8) != 0) by (bit_vector);
    assert((((l0 | 0x01u8) | (UART_LSR_TEMT | UART_LSR_THRE)) & 0x01u8) != 0) by (bit_vector);
}

} // verus!
