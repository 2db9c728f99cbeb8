//! The bus and the delay source of a driver, together with the record of
//! what was done with them. Every write and every delay of a driver goes
//! through its link, which is where the history is written.

use vstd::prelude::*;

use crate::bus::{Bus, Delay};
use crate::history::{ran, refusal, Step};

verus! {

/// A bus, a delay source, and the history of their use.
pub(crate) struct Link<B: Bus, D: Delay> {
    bus: B,
    delay: D,
    history: Ghost<Seq<Step<B::Error>>>,
}

impl<B: Bus, D: Delay> Link<B, D> {
    /// Everything that was done through the link, oldest first.
    pub(crate) closed spec fn history(&self) -> Seq<Step<B::Error>> {
        self.history@
    }

    /// The bus of the link.
    pub(crate) closed spec fn bus(&self) -> B {
        self.bus
    }

    /// The delay source of the link.
    pub(crate) closed spec fn delay(&self) -> D {
        self.delay
    }

    /// A link with an empty history.
    pub(crate) fn new(bus: B, delay: D) -> (link: Self)
        ensures
            link.history() == Seq::<Step<B::Error>>::empty(),
            link.bus() == bus,
            link.delay() == delay,
    {
        Link { bus, delay, history: Ghost(Seq::empty()) }
    }

    /// Takes the link apart.
    pub(crate) fn release(self) -> (parts: (B, D))
        ensures
            parts.0 == self.bus(),
            parts.1 == self.delay(),
    {
        (self.bus, self.delay)
    }

    /// Writes `bytes` to `address` and records the attempt with what the
    /// transport made of it.
    pub(crate) fn write(&mut self, address: u8, bytes: &[u8]) -> (r: Result<(), B::Error>)
        ensures
            final(self).history() == old(self).history().push(
                Step::write(address, bytes@, refusal(r)),
            ),
    {
        let r = self.bus.write(address, bytes);
        self.history = Ghost(self.history@.push(Step::write(address, bytes@, refusal(r))));
        r
    }

    /// Waits `ms` milliseconds and records it.
    pub(crate) fn delay_ms(&mut self, ms: u32)
        ensures
            final(self).history() == old(self).history().push(Step::wait_ms(ms)),
    {
        self.delay.delay_ms(ms);
        self.history = Ghost(self.history@.push(Step::wait_ms(ms)));
    }

    /// Waits `us` microseconds and records it.
    pub(crate) fn delay_us(&mut self, us: u32)
        ensures
            final(self).history() == old(self).history().push(Step::wait_us(us)),
    {
        self.delay.delay_us(us);
        self.history = Ghost(self.history@.push(Step::wait_us(us)));
    }

    /// Writes the two bytes `first`, `second` to `address`.
    pub(crate) fn write_pair(&mut self, address: u8, first: u8, second: u8) -> (r: Result<
        (),
        B::Error,
    >)
        ensures
            ran(
                old(self).history(),
                final(self).history(),
                seq![Step::sent(address, seq![first, second])],
                refusal(r),
            ),
    {
        let frame: [u8; 2] = [first, second];
        assert(frame@ =~= seq![first, second]);
        let ghost plan = seq![Step::<B::Error>::sent(address, seq![first, second])];
        let r = self.write(address, &frame);
        proof {
            match refusal(r) {
                None => {
                    assert(self.history() =~= old(self).history() + plan);
                },
                Some(e) => {
                    assert(self.history() =~= old(self).history() + plan.take(0).push(
                        plan[0].refused(e),
                    ));
                },
            }
        }
        r
    }
}

} // verus!
