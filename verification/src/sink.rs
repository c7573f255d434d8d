//! The sink arbiter: engine-emitted responses and user traffic share
//! one downstream sink.  A single slot either holds the sink
//! (available) or is parked while the engine's send is in flight; a
//! user task arriving meanwhile is remembered and woken when the sink
//! returns.  At most one party holds the sink at a time, and every
//! take is paired with a put, so each inbound-packet cycle ends with
//! the slot available.

use vstd::prelude::*;

verus! {

/// The single slot of the arbiter.
pub enum SinkSlot<S> {
    /// No send is in flight; the sink is here.
    Available(S),
    /// The sink is loaned out; a parked task may be waiting for it.
    Parked(Option<u64>),
}

/// The task parked in a slot, if any.
pub open spec fn parked_task<S>(slot: SinkSlot<S>) -> Option<u64> {
    match slot {
        SinkSlot::Available(_) => None,
        SinkSlot::Parked(t) => t,
    }
}

/// The user-facing half: its sends go straight through while the slot
/// is available and park the task otherwise.
pub struct DefaultPacketHandlerSink<S> {
    pub slot: SinkSlot<S>,
}

impl<S> DefaultPacketHandlerSink<S> {
    pub fn new(inner_sink: S) -> (r: DefaultPacketHandlerSink<S>)
        ensures
            r.slot == SinkSlot::Available(inner_sink),
    {
        DefaultPacketHandlerSink { slot: SinkSlot::Available(inner_sink) }
    }

    /// Whether the caller may write through now.  When the sink is
    /// loaned out, the task is parked instead and must retry after it
    /// is woken.
    pub fn start_send(&mut self, task: u64) -> (ready: bool)
        ensures
            ready ==> *final(self) == *old(self) && old(self).slot is Available,
            !ready ==> old(self).slot is Parked && final(self).slot == SinkSlot::Parked::<S>(
                Some(task),
            ),
    {
        if matches!(self.slot, SinkSlot::Available(_)) {
            true
        } else {
            self.slot = SinkSlot::Parked(Some(task));
            false
        }
    }

    /// Same protocol as `start_send`, for completion polling.
    pub fn poll_complete(&mut self, task: u64) -> (ready: bool)
        ensures
            ready ==> *final(self) == *old(self) && old(self).slot is Available,
            !ready ==> old(self).slot is Parked && final(self).slot == SinkSlot::Parked::<S>(
                Some(task),
            ),
    {
        if matches!(self.slot, SinkSlot::Available(_)) {
            true
        } else {
            self.slot = SinkSlot::Parked(Some(task));
            false
        }
    }

    /// Same protocol as `start_send`, for closing.
    pub fn close(&mut self, task: u64) -> (ready: bool)
        ensures
            ready ==> *final(self) == *old(self) && old(self).slot is Available,
            !ready ==> old(self).slot is Parked && final(self).slot == SinkSlot::Parked::<S>(
                Some(task),
            ),
    {
        if matches!(self.slot, SinkSlot::Available(_)) {
            true
        } else {
            self.slot = SinkSlot::Parked(Some(task));
            false
        }
    }

    /// The engine takes the sink to send a response; the slot parks.
    pub fn take_sink(&mut self) -> (s: S)
        requires
            old(self).slot is Available,
        ensures
            old(self).slot == SinkSlot::Available(s),
            final(self).slot == SinkSlot::Parked::<S>(None),
    {
        let mut tmp: SinkSlot<S> = SinkSlot::Parked(None);
        core::mem::swap(&mut tmp, &mut self.slot);
        match tmp {
            SinkSlot::Available(s) => s,
            SinkSlot::Parked(_) => unreached(),
        }
    }

    /// The engine returns the sink after its send; the slot is
    /// available again, and a task parked meanwhile is handed back to
    /// be woken.
    pub fn put_sink(&mut self, s: S) -> (woken: Option<u64>)
        requires
            old(self).slot is Parked,
        ensures
            final(self).slot == SinkSlot::Available(s),
            woken == parked_task(old(self).slot),
    {
        let mut tmp: SinkSlot<S> = SinkSlot::Available(s);
        core::mem::swap(&mut tmp, &mut self.slot);
        match tmp {
            SinkSlot::Parked(t) => t,
            SinkSlot::Available(_) => unreached(),
        }
    }
}

/// The engine and the arbiter, wired together as the packet-handling
/// layer hands them out.
pub struct DefaultPacketHandler<S> {
    pub inner_stream: crate::handler::DefaultPacketHandlerStream,
    pub inner_sink: DefaultPacketHandlerSink<S>,
}

impl<S> DefaultPacketHandler<S> {
    pub fn new(inner_sink: S, send_clientinit: bool) -> (r: DefaultPacketHandler<S>)
        ensures
            r.inner_stream.send_clientinit == send_clientinit,
            r.inner_sink.slot == SinkSlot::Available(inner_sink),
    {
        DefaultPacketHandler {
            inner_stream: crate::handler::DefaultPacketHandlerStream::new(send_clientinit),
            inner_sink: DefaultPacketHandlerSink::new(inner_sink),
        }
    }

    pub fn split(self) -> (r: (DefaultPacketHandlerSink<S>, crate::handler::DefaultPacketHandlerStream))
        ensures
            r.0 == self.inner_sink,
            r.1 == self.inner_stream,
    {
        (self.inner_sink, self.inner_stream)
    }
}

} // verus!
