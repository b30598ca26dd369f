//! Boot-time device initialization.
//!
//! Each probe consults the board description; a device that the board
//! does not carry is skipped with a console note. Devices that raise
//! interrupts are registered with the interrupt controller; the GPU and
//! block device are polled and register no line.

use vstd::prelude::*;

verus! {

/// A kernel driver that can be told its interrupt fired.
pub trait DeviceBase {
    fn hand_irq(&mut self);
}

impl DeviceBase for crate::domains::RtcDomain {
    fn hand_irq(&mut self) {
        if self.irq_count < u64::MAX {
            self.irq_count = self.irq_count + 1;
        }
    }
}

impl DeviceBase for crate::domains::UartDomain {
    fn hand_irq(&mut self) {
        if self.irq_count < u64::MAX {
            self.irq_count = self.irq_count + 1;
        }
    }
}

/// The device classes the boot path probes.
#[derive(Clone, Copy, Debug, PartialEq, Eq, Structural)]
pub enum ProbedDevice {
    Uart,
    Gpu,
    KeyboardInput,
    MouseInput,
    Rtc,
    Block,
}

/// What the platform's board description reports for each device class:
/// base address and interrupt line, or absent.
#[derive(Clone, Copy)]
pub struct BoardInfo {
    pub uart: Option<(usize, usize)>,
    pub gpu: Option<(usize, usize)>,
    pub keyboard: Option<(usize, usize)>,
    pub mouse: Option<(usize, usize)>,
    pub rtc: Option<(usize, usize)>,
    pub block: Option<(usize, usize)>,
}

/// The driver registry the boot path fills.
pub struct DeviceManager {
    /// Devices brought up, in probe order.
    pub initialized: Vec<ProbedDevice>,
    /// (interrupt line, device) registrations with the interrupt
    /// controller.
    pub plic: Vec<(usize, ProbedDevice)>,
    /// Raised once the UART serves the console.
    pub uart_flag: bool,
}

/// The devices `init_device` brings up for this board, in probe order.
pub open spec fn expected_inits(board: BoardInfo) -> Seq<ProbedDevice> {
    (if board.uart is Some {
        seq![ProbedDevice::Uart]
    } else {
        Seq::<ProbedDevice>::empty()
    }) + (if board.gpu is Some {
        seq![ProbedDevice::Gpu]
    } else {
        Seq::<ProbedDevice>::empty()
    }) + (if board.keyboard is Some {
        seq![ProbedDevice::KeyboardInput]
    } else {
        Seq::<ProbedDevice>::empty()
    }) + (if board.mouse is Some {
        seq![ProbedDevice::MouseInput]
    } else {
        Seq::<ProbedDevice>::empty()
    }) + (if board.rtc is Some {
        seq![ProbedDevice::Rtc]
    } else {
        Seq::<ProbedDevice>::empty()
    }) + (if board.block is Some {
        seq![ProbedDevice::Block]
    } else {
        Seq::<ProbedDevice>::empty()
    })
}

/// The interrupt registrations `init_device` makes for this board: the
/// UART, the two input devices and the RTC register their lines; the GPU
/// and the block device are polled.
pub open spec fn expected_plic(board: BoardInfo) -> Seq<(usize, ProbedDevice)> {
    (if board.uart is Some {
        seq![(board.uart->Some_0.1, ProbedDevice::Uart)]
    } else {
        Seq::<(usize, ProbedDevice)>::empty()
    }) + (if board.keyboard is Some {
        seq![(board.keyboard->Some_0.1, ProbedDevice::KeyboardInput)]
    } else {
        Seq::<(usize, ProbedDevice)>::empty()
    }) + (if board.mouse is Some {
        seq![(board.mouse->Some_0.1, ProbedDevice::MouseInput)]
    } else {
        Seq::<(usize, ProbedDevice)>::empty()
    }) + (if board.rtc is Some {
        seq![(board.rtc->Some_0.1, ProbedDevice::Rtc)]
    } else {
        Seq::<(usize, ProbedDevice)>::empty()
    })
}

impl DeviceManager {
    pub fn new() -> (r: DeviceManager)
        ensures
            r.initialized@.len() == 0,
            r.plic@.len() == 0,
            !r.uart_flag,
    {
        DeviceManager { initialized: Vec::new(), plic: Vec::new(), uart_flag: false }
    }

    /// Probes the UART; when present, brings it up, registers its line
    /// and raises the console flag.
    pub fn init_uart(&mut self, board: &BoardInfo)
        ensures
            board.uart is None ==> *final(self) == *old(self),
            board.uart is Some ==> {
                &&& final(self).initialized@ == old(self).initialized@.push(ProbedDevice::Uart)
                &&& final(self).plic@ == old(self).plic@.push(
                    (board.uart->Some_0.1, ProbedDevice::Uart),
                )
                &&& final(self).uart_flag
            },
    {
        match board.uart {
            None => {},
            Some((_base, irq)) => {
                self.initialized.push(ProbedDevice::Uart);
                self.plic.push((irq, ProbedDevice::Uart));
                self.uart_flag = true;
            },
        }
    }

    /// Probes the GPU; when present, brings it up. The GPU is polled and
    /// registers no interrupt line.
    pub fn init_gpu(&mut self, board: &BoardInfo)
        ensures
            board.gpu is None ==> *final(self) == *old(self),
            board.gpu is Some ==> final(self).initialized@ == old(self).initialized@.push(
                ProbedDevice::Gpu,
            ) && final(self).plic@ == old(self).plic@ && final(self).uart_flag == old(
                self,
            ).uart_flag,
    {
        match board.gpu {
            None => {},
            Some((_base, _irq)) => {
                self.initialized.push(ProbedDevice::Gpu);
            },
        }
    }

    /// Probes the keyboard input device; when present, brings it up and
    /// registers its line.
    pub fn init_keyboard_input_device(&mut self, board: &BoardInfo)
        ensures
            board.keyboard is None ==> *final(self) == *old(self),
            board.keyboard is Some ==> {
                &&& final(self).initialized@ == old(self).initialized@.push(
                    ProbedDevice::KeyboardInput,
                )
                &&& final(self).plic@ == old(self).plic@.push(
                    (board.keyboard->Some_0.1, ProbedDevice::KeyboardInput),
                )
                &&& final(self).uart_flag == old(self).uart_flag
            },
    {
        match board.keyboard {
            None => {},
            Some((_base, irq)) => {
                self.initialized.push(ProbedDevice::KeyboardInput);
                self.plic.push((irq, ProbedDevice::KeyboardInput));
            },
        }
    }

    /// Probes the mouse input device; when present, brings it up and
    /// registers its line.
    pub fn init_mouse_input_device(&mut self, board: &BoardInfo)
        ensures
            board.mouse is None ==> *final(self) == *old(self),
            board.mouse is Some ==> {
                &&& final(self).initialized@ == old(self).initialized@.push(
                    ProbedDevice::MouseInput,
                )
                &&& final(self).plic@ == old(self).plic@.push(
                    (board.mouse->Some_0.1, ProbedDevice::MouseInput),
                )
                &&& final(self).uart_flag == old(self).uart_flag
            },
    {
        match board.mouse {
            None => {},
            Some((_base, irq)) => {
                self.initialized.push(ProbedDevice::MouseInput);
                self.plic.push((irq, ProbedDevice::MouseInput));
            },
        }
    }

    /// Probes the RTC; when present, brings it up and registers its
    /// line.
    pub fn init_rtc(&mut self, board: &BoardInfo)
        ensures
            board.rtc is None ==> *final(self) == *old(self),
            board.rtc is Some ==> {
                &&& final(self).initialized@ == old(self).initialized@.push(ProbedDevice::Rtc)
                &&& final(self).plic@ == old(self).plic@.push(
                    (board.rtc->Some_0.1, ProbedDevice::Rtc),
                )
                &&& final(self).uart_flag == old(self).uart_flag
            },
    {
        match board.rtc {
            None => {},
            Some((_base, irq)) => {
                self.initialized.push(ProbedDevice::Rtc);
                self.plic.push((irq, ProbedDevice::Rtc));
            },
        }
    }

    /// Probes the block device; when present, brings it up. It is polled
    /// and registers no interrupt line.
    pub fn init_block_device(&mut self, board: &BoardInfo)
        ensures
            board.block is None ==> *final(self) == *old(self),
            board.block is Some ==> final(self).initialized@ == old(self).initialized@.push(
                ProbedDevice::Block,
            ) && final(self).plic@ == old(self).plic@ && final(self).uart_flag == old(
                self,
            ).uart_flag,
    {
        match board.block {
            None => {},
            Some((_base, _irq)) => {
                self.initialized.push(ProbedDevice::Block);
            },
        }
    }
}

/// Brings up every device the board carries, in the fixed probe order:
/// UART, GPU, keyboard, mouse, RTC, and the block device last (it cannot
/// be probed before the other devices on this platform).
#[verifier::rlimit(50)]
pub fn init_device(mgr: &mut DeviceManager, board: &BoardInfo)
    requires
        old(mgr).initialized@.len() == 0,
        old(mgr).plic@.len() == 0,
    ensures
        final(mgr).initialized@ == expected_inits(*board),
        final(mgr).plic@ == expected_plic(*board),
        final(mgr).uart_flag == (old(mgr).uart_flag || board.uart is Some),
{
    mgr.init_uart(board);
    mgr.init_gpu(board);
    mgr.init_keyboard_input_device(board);
    mgr.init_mouse_input_device(board);
    mgr.init_rtc(board);
    mgr.init_block_device(board);
    proof {
        assert(mgr.initialized@ =~= expected_inits(*board));
        assert(mgr.plic@ =~= expected_plic(*board));
    }
}

} // verus!
