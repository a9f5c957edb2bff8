//! Decoding of supervisor trap causes and the kernel's response to each.
use riscv::register::scause::Exception;
use riscv::register::scause::Interrupt;
use vstd::prelude::*;

verus! {

/// Interrupt causes of the RISC-V privileged architecture.
#[derive(Clone, Copy, Debug, PartialEq, Eq, Structural)]
pub enum InterruptCause {
    UserSoft,
    SupervisorSoft,
    UserTimer,
    SupervisorTimer,
    UserExternal,
    SupervisorExternal,
    Unknown,
}

/// Exception causes of the RISC-V privileged architecture.
#[derive(Clone, Copy, Debug, PartialEq, Eq, Structural)]
pub enum ExceptionCause {
    InstructionMisaligned,
    InstructionFault,
    IllegalInstruction,
    Breakpoint,
    LoadFault,
    StoreMisaligned,
    StoreFault,
    UserEnvCall,
    InstructionPageFault,
    LoadPageFault,
    StorePageFault,
    Unknown,
}

/// The interrupt cause with code `code`.
pub open spec fn interrupt_cause(code: usize) -> InterruptCause {
    if code == 0 {
        InterruptCause::UserSoft
    } else if code == 1 {
        InterruptCause::SupervisorSoft
    } else if code == 4 {
        InterruptCause::UserTimer
    } else if code == 5 {
        InterruptCause::SupervisorTimer
    } else if code == 8 {
        InterruptCause::UserExternal
    } else if code == 9 {
        InterruptCause::SupervisorExternal
    } else {
        InterruptCause::Unknown
    }
}

/// The exception cause with code `code`.
pub open spec fn exception_cause(code: usize) -> ExceptionCause {
    if code == 0 {
        ExceptionCause::InstructionMisaligned
    } else if code == 1 {
        ExceptionCause::InstructionFault
    } else if code == 2 {
        ExceptionCause::IllegalInstruction
    } else if code == 3 {
        ExceptionCause::Breakpoint
    } else if code == 5 {
        ExceptionCause::LoadFault
    } else if code == 6 {
        ExceptionCause::StoreMisaligned
    } else if code == 7 {
        ExceptionCause::StoreFault
    } else if code == 8 {
        ExceptionCause::UserEnvCall
    } else if code == 12 {
        ExceptionCause::InstructionPageFault
    } else if code == 13 {
        ExceptionCause::LoadPageFault
    } else if code == 15 {
        ExceptionCause::StorePageFault
    } else {
        ExceptionCause::Unknown
    }
}

/// Calls riscv's `scause::Interrupt::from`. Claimed: the cause its match
/// table assigns to `code` (0, 1, 4, 5, 8, 9; anything else is unknown).
#[verifier::external_body]
fn decode_interrupt(code: usize) -> (r: InterruptCause)
    ensures
        r == interrupt_cause(code),
{
    match Interrupt::from(code) {
        Interrupt::UserSoft => InterruptCause::UserSoft,
        Interrupt::SupervisorSoft => InterruptCause::SupervisorSoft,
        Interrupt::UserTimer => InterruptCause::UserTimer,
        Interrupt::SupervisorTimer => InterruptCause::SupervisorTimer,
        Interrupt::UserExternal => InterruptCause::UserExternal,
        Interrupt::SupervisorExternal => InterruptCause::SupervisorExternal,
        Interrupt::Unknown => InterruptCause::Unknown,
    }
}

/// Calls riscv's `scause::Exception::from`. Claimed: the cause its match
/// table assigns to `code` (0-3, 5-8, 12, 13, 15; anything else is unknown).
#[verifier::external_body]
fn decode_exception(code: usize) -> (r: ExceptionCause)
    ensures
        r == exception_cause(code),
{
    match Exception::from(code) {
        Exception::InstructionMisaligned => ExceptionCause::InstructionMisaligned,
        Exception::InstructionFault => ExceptionCause::InstructionFault,
        Exception::IllegalInstruction => ExceptionCause::IllegalInstruction,
        Exception::Breakpoint => ExceptionCause::Breakpoint,
        Exception::LoadFault => ExceptionCause::LoadFault,
        Exception::StoreMisaligned => ExceptionCause::StoreMisaligned,
        Exception::StoreFault => ExceptionCause::StoreFault,
        Exception::UserEnvCall => ExceptionCause::UserEnvCall,
        Exception::InstructionPageFault => ExceptionCause::InstructionPageFault,
        Exception::LoadPageFault => ExceptionCause::LoadPageFault,
        Exception::StorePageFault => ExceptionCause::StorePageFault,
        Exception::Unknown => ExceptionCause::Unknown,
    }
}

/// What the trap handler does for a trap.
#[derive(Clone, Copy, Debug, PartialEq, Eq, Structural)]
pub enum TrapAction {
    /// A supervisor external interrupt: serve the interrupt controller in
    /// supervisor mode.
    ExternalInterrupt,
    /// A breakpoint: raise a user software interrupt.
    Breakpoint,
    /// Anything else is unsupported: report it and halt.
    Unsupported,
}

/// The response to a trap whose cause register says `is_interrupt` and
/// `code`.
pub open spec fn trap_response(is_interrupt: bool, code: usize) -> TrapAction {
    if is_interrupt && interrupt_cause(code) == InterruptCause::SupervisorExternal {
        TrapAction::ExternalInterrupt
    } else if !is_interrupt && exception_cause(code) == ExceptionCause::Breakpoint {
        TrapAction::Breakpoint
    } else {
        TrapAction::Unsupported
    }
}

/// The trap handler's decision for a trap with the given cause fields.
pub fn trap_handler(is_interrupt: bool, code: usize) -> (r: TrapAction)
    ensures
        r == trap_response(is_interrupt, code),
{
    if is_interrupt {
        match decode_interrupt(code) {
            InterruptCause::SupervisorExternal => TrapAction::ExternalInterrupt,
            _ => TrapAction::Unsupported,
        }
    } else {
        match decode_exception(code) {
            ExceptionCause::Breakpoint => TrapAction::Breakpoint,
            _ => TrapAction::Unsupported,
        }
    }
}

/// The trap handler serves exactly two causes: supervisor external
/// interrupts (interrupt code 9) and breakpoints (exception code 3); every
/// other interrupt or exception is unsupported.
pub proof fn lemma_trap_response_causes(is_interrupt: bool, code: usize)
    ensures
        (trap_response(is_interrupt, code) == TrapAction::ExternalInterrupt) == (is_interrupt && code
            == 9),
        (trap_response(is_interrupt, code) == TrapAction::Breakpoint) == (!is_interrupt && code == 3),
        (trap_response(is_interrupt, code) == TrapAction::Unsupported) == !((is_interrupt && code
            == 9) || (!is_interrupt && code == 3)),
{
}

} // verus!
