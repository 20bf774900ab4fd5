//! The register-bus boundary: transactions, failures, and the transport model.

use vstd::prelude::*;

verus! {

/// Number of byte registers the device exposes (addresses 0 through 57).
pub const EC_REGISTER_COUNT: usize = 58;

/// A transport-level failure: the bus could not complete a transaction
/// (no response, nonexistent address, truncated transfer).  The first failing
/// transaction aborts the logical operation in progress; no operation retries.
#[derive(Clone, Copy, PartialEq, Eq, Structural, Debug)]
pub struct BusError;

/// One step on the wire, as the device sees it: a transaction or a settle
/// delay.  Driver contracts pin down the exact sequence of these steps, so the
/// wire protocol itself is part of every operation's specification.
#[derive(Clone, Copy, PartialEq, Eq, Structural, Debug)]
pub enum BusEvent {
    /// A pointer-set transaction addressing the given register.
    Select(u8),
    /// A one-byte read at the device's current register pointer.
    Read,
    /// A one-byte write straight to the given register address.
    Write(u8, u8),
    /// A settle delay of the given number of milliseconds.
    Delay(u64),
}

/// A byte-addressable bus to the device, modelled as a passive register file
/// of [`EC_REGISTER_COUNT`] bytes plus the device's internal register pointer.
///
/// The model deliberately stops at the wire: a write changes exactly the
/// addressed byte, and firmware-side effects of task codes (populating the
/// measurement registers, moving EEPROM cells through the buffer register) are
/// outside it.  What the model does capture exactly is the traffic: `log()`
/// records every transaction and delay issued, attempted failures included,
/// oldest first.
///
/// A failed transaction leaves the register file and pointer unspecified
/// (a partial write may have landed); only well-formedness and the log entry
/// for the attempt are guaranteed.
pub trait Transport: Sized {
    /// The modelled contents of the device's register file.
    ///
    /// The provided body is a placeholder so that transports outside Verus's
    /// view (a real bus handle in an unverified embedding) can implement the
    /// trait without ghost code; every verified transport overrides it.
    open spec fn mem(&self) -> Seq<u8> {
        Seq::empty()
    }

    /// The device's internal "currently selected register" pointer.
    /// Placeholder body as for [`Transport::mem`].
    open spec fn pointer(&self) -> int {
        0
    }

    /// Every transaction and delay issued so far, oldest first.
    /// Placeholder body as for [`Transport::mem`].
    open spec fn log(&self) -> Seq<BusEvent> {
        Seq::empty()
    }

    /// The transport's invariant; every method keeps it.
    /// Placeholder body as for [`Transport::mem`].
    open spec fn wf(&self) -> bool {
        true
    }

    /// Send a pointer-set transaction addressing `addr`.  Does not touch the
    /// register file; the caller owns the settle delay that must follow.
    fn select_register(&mut self, addr: u8) -> (r: Result<(), BusError>)
        requires
            old(self).wf(),
        ensures
            final(self).wf(),
            final(self).mem().len() == old(self).mem().len(),
            final(self).log() == old(self).log().push(BusEvent::Select(addr)),
            r is Ok ==> final(self).mem() == old(self).mem()
                && final(self).pointer() == addr as int,
    ;

    /// Read one byte at the current register pointer; the device then advances
    /// its pointer to the next register.
    fn read_byte(&mut self) -> (r: Result<u8, BusError>)
        requires
            old(self).wf(),
        ensures
            final(self).wf(),
            final(self).mem().len() == old(self).mem().len(),
            final(self).log() == old(self).log().push(BusEvent::Read),
            r is Ok ==> 0 <= old(self).pointer() < old(self).mem().len()
                && r->Ok_0 == old(self).mem()[old(self).pointer()]
                && final(self).mem() == old(self).mem()
                && final(self).pointer() == old(self).pointer() + 1,
    ;

    /// Write one byte straight to register `addr` (no separate select step);
    /// the device leaves its pointer just past the written register.  The
    /// caller owns the settle delay that must follow.
    fn write_byte(&mut self, addr: u8, value: u8) -> (r: Result<(), BusError>)
        requires
            old(self).wf(),
        ensures
            final(self).wf(),
            final(self).mem().len() == old(self).mem().len(),
            final(self).log() == old(self).log().push(BusEvent::Write(addr, value)),
            r is Ok ==> (addr as int) < old(self).mem().len()
                && final(self).mem() == old(self).mem().update(addr as int, value)
                && final(self).pointer() == addr as int + 1,
    ;

    /// Block for `ms` milliseconds of firmware settle time.  Cannot fail and
    /// does not touch the device.
    fn delay_ms(&mut self, ms: u64)
        requires
            old(self).wf(),
        ensures
            final(self).wf(),
            final(self).mem() == old(self).mem(),
            final(self).pointer() == old(self).pointer(),
            final(self).log() == old(self).log().push(BusEvent::Delay(ms)),
    ;
}

/// The log grew from `pre` by some prefix of the planned steps `full`: the
/// shape a wire log has after an operation was cut short by a bus failure.
/// Nothing past the failing step is ever issued.
pub open spec fn aborted_within(pre: Seq<BusEvent>, post: Seq<BusEvent>, full: Seq<BusEvent>) -> bool {
    exists|k: int| 0 <= k <= full.len() && post == pre + #[trigger] full.take(k)
}

/// An abort inside the planned steps `done` is also an abort inside the longer
/// plan `done + rest`.
pub proof fn lemma_abort_extend(
    pre: Seq<BusEvent>,
    post: Seq<BusEvent>,
    done: Seq<BusEvent>,
    rest: Seq<BusEvent>,
)
    requires
        aborted_within(pre, post, done),
    ensures
        aborted_within(pre, post, done + rest),
{
    let k = choose|k: int| 0 <= k <= done.len() && post == pre + #[trigger] done.take(k);
    assert((done + rest).take(k) =~= done.take(k));
    assert(post == pre + (done + rest).take(k));
}

/// Completing the steps `done` and then aborting inside `rest` is an abort
/// inside the whole plan `done + rest`.
pub proof fn lemma_abort_after(
    pre: Seq<BusEvent>,
    mid: Seq<BusEvent>,
    post: Seq<BusEvent>,
    done: Seq<BusEvent>,
    rest: Seq<BusEvent>,
)
    requires
        mid == pre + done,
        aborted_within(mid, post, rest),
    ensures
        aborted_within(pre, post, done + rest),
{
    let k = choose|k: int| 0 <= k <= rest.len() && post == mid + #[trigger] rest.take(k);
    assert((done + rest).take(done.len() + k) =~= done + rest.take(k));
    assert(post == pre + (done + rest).take(done.len() + k));
}

} // verus!
