//! An in-memory transport, verified against the bus model.
//!
//! `SimBus` behaves as the model says a perfect transport does: a register
//! file of [`EC_REGISTER_COUNT`] bytes with an auto-advancing register
//! pointer, every transaction recorded in an inspectable wire log.  A single
//! bus failure can be scheduled ahead of time, which is how tests exercise
//! the abort-on-first-failure discipline without real hardware.

use vstd::prelude::*;

use crate::bus::{BusError, BusEvent, Transport, EC_REGISTER_COUNT};

verus! {

/// A simulated register bus: a perfect transport over an in-memory register
/// file, with an optional scheduled failure.
pub struct SimBus {
    regs: Vec<u8>,
    ptr: usize,
    events: Vec<BusEvent>,
    fail_in: Option<u64>,
}

/// A failure schedule after one fallible transaction has gone by: the
/// countdown decreases, and a due failure is consumed.
pub open spec fn failure_step(f: Option<u64>) -> Option<u64> {
    match f {
        None => None,
        Some(n) => if n == 0 {
            None
        } else {
            Some((n - 1) as u64)
        },
    }
}

impl SimBus {
    /// The pending failure schedule: `Some(n)` when the fallible transaction
    /// numbered `n` from now (counting from zero) will fail.
    pub closed spec fn failure_in(&self) -> Option<u64> {
        self.fail_in
    }

    /// A bus whose registers all read zero, with an empty wire log.
    pub fn new() -> (r: SimBus)
        ensures
            r.wf(),
            r.mem().len() == EC_REGISTER_COUNT as int,
            forall|i: int| 0 <= i < r.mem().len() ==> r.mem()[i] == 0u8,
            r.pointer() == 0,
            r.log() == Seq::<BusEvent>::empty(),
            r.failure_in() == Option::<u64>::None,
    {
        let mut regs: Vec<u8> = Vec::new();
        while regs.len() < EC_REGISTER_COUNT
            invariant
                regs@.len() <= EC_REGISTER_COUNT as int,
                forall|i: int| 0 <= i < regs@.len() ==> regs@[i] == 0u8,
            decreases EC_REGISTER_COUNT as int - regs@.len(),
        {
            regs.push(0u8);
        }
        SimBus { regs, ptr: 0, events: Vec::new(), fail_in: None }
    }

    /// Like [`SimBus::new`], but the fallible bus transaction numbered `n`
    /// (counting selects, reads and writes from zero; delays do not count)
    /// will fail with [`BusError`].
    pub fn with_failure(n: u64) -> (r: SimBus)
        ensures
            r.wf(),
            r.mem().len() == EC_REGISTER_COUNT as int,
            forall|i: int| 0 <= i < r.mem().len() ==> r.mem()[i] == 0u8,
            r.pointer() == 0,
            r.log() == Seq::<BusEvent>::empty(),
            r.failure_in() == Some(n),
    {
        let mut bus = SimBus::new();
        bus.fail_in = Some(n);
        bus
    }

    /// Set one register directly, without putting anything on the wire.
    /// This is test fixture plumbing, not a bus transaction.
    pub fn preset(&mut self, addr: u8, value: u8)
        requires
            old(self).wf(),
            (addr as int) < old(self).mem().len(),
        ensures
            final(self).wf(),
            final(self).mem() == old(self).mem().update(addr as int, value),
            final(self).pointer() == old(self).pointer(),
            final(self).log() == old(self).log(),
            final(self).failure_in() == old(self).failure_in(),
    {
        self.regs[addr as usize] = value;
    }

    /// Read one register directly, without putting anything on the wire.
    pub fn byte_at(&self, addr: u8) -> (r: u8)
        requires
            self.wf(),
            (addr as int) < self.mem().len(),
        ensures
            r == self.mem()[addr as int],
    {
        self.regs[addr as usize]
    }

    /// The wire log so far: every transaction and delay, oldest first.
    pub fn event_log(&self) -> (r: &Vec<BusEvent>)
        ensures
            r@ == self.log(),
    {
        &self.events
    }

    /// Count down towards the scheduled failure; true when this transaction
    /// is the one that fails.
    fn bus_op_fails(&mut self) -> (fail: bool)
        ensures
            final(self).regs == old(self).regs,
            final(self).ptr == old(self).ptr,
            final(self).events == old(self).events,
            fail == (old(self).fail_in == Some(0u64)),
            final(self).fail_in == failure_step(old(self).fail_in),
    {
        match self.fail_in {
            None => false,
            Some(n) => {
                if n == 0 {
                    self.fail_in = None;
                    true
                } else {
                    self.fail_in = Some(n - 1);
                    false
                }
            },
        }
    }
}

impl Transport for SimBus {
    closed spec fn mem(&self) -> Seq<u8> {
        self.regs@
    }

    closed spec fn pointer(&self) -> int {
        self.ptr as int
    }

    closed spec fn log(&self) -> Seq<BusEvent> {
        self.events@
    }

    closed spec fn wf(&self) -> bool {
        self.regs@.len() == EC_REGISTER_COUNT as int
    }

    fn select_register(&mut self, addr: u8) -> (r: Result<(), BusError>)
        ensures
            final(self).mem() == old(self).mem(),
            final(self).failure_in() == failure_step(old(self).failure_in()),
            r is Err <==> old(self).failure_in() == Some(0u64),
            r is Err ==> final(self).pointer() == old(self).pointer(),
    {
        self.events.push(BusEvent::Select(addr));
        if self.bus_op_fails() {
            return Err(BusError);
        }
        self.ptr = addr as usize;
        Ok(())
    }

    fn read_byte(&mut self) -> (r: Result<u8, BusError>)
        ensures
            final(self).mem() == old(self).mem(),
            final(self).failure_in() == failure_step(old(self).failure_in()),
            r is Err <==> old(self).failure_in() == Some(0u64) || !(0 <= old(self).pointer()
                < old(self).mem().len()),
            r is Err ==> final(self).pointer() == old(self).pointer(),
    {
        self.events.push(BusEvent::Read);
        if self.bus_op_fails() {
            return Err(BusError);
        }
        if self.ptr >= self.regs.len() {
            return Err(BusError);
        }
        let value = self.regs[self.ptr];
        self.ptr = self.ptr + 1;
        Ok(value)
    }

    fn write_byte(&mut self, addr: u8, value: u8) -> (r: Result<(), BusError>)
        ensures
            final(self).failure_in() == failure_step(old(self).failure_in()),
            r is Err <==> old(self).failure_in() == Some(0u64) || (addr as int) >= old(
                self,
            ).mem().len(),
            r is Err ==> final(self).mem() == old(self).mem() && final(self).pointer() == old(
                self,
            ).pointer(),
    {
        self.events.push(BusEvent::Write(addr, value));
        if self.bus_op_fails() {
            return Err(BusError);
        }
        if (addr as usize) >= self.regs.len() {
            return Err(BusError);
        }
        self.regs[addr as usize] = value;
        self.ptr = addr as usize + 1;
        Ok(())
    }

    fn delay_ms(&mut self, ms: u64)
        ensures
            final(self).failure_in() == old(self).failure_in(),
    {
        self.events.push(BusEvent::Delay(ms));
    }
}

} // verus!
