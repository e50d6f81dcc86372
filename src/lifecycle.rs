//! The start/stop lifecycle shared by the long-running parts of the agent, and
//! the side of it that a sink actor implements.
//!
//! The actor owns the receiving end of a producer queue, a transport and an
//! encoder until it is started; starting hands them out to run in a
//! background task and keeps the handle of the task; stopping hands the handle
//! back to be awaited.
use vstd::prelude::*;
use crate::csv::batch_text;
use crate::encoder::CsvEncoder;
use crate::error::SendError;
use crate::record::{encoded_all, Sendable};

verus! {

/// A long-running part of the agent.
pub trait Module {
    type Error;
    type Output;

    /// The name of the part.
    fn name(&self) -> &str;

    /// Starts the background work and returns at once.
    fn start(&mut self) -> Result<Self::Output, Self::Error>;
}

/// What `start` asks the caller to do.
pub enum StartOutcome<R, S, E> {
    /// Run the loop over these parts in a new task, then report its handle
    /// with `started`.
    Spawn(R, S, E),
    /// The actor was already running: nothing is spawned.
    AlreadyRunning,
    /// The parts were handed out by an earlier start: nothing is spawned.
    Exhausted,
}

/// What `stop` asks the caller to do.
pub enum StopOutcome<H> {
    /// Wait for the task behind this handle, if any, and report how it ended.
    Join(Option<H>),
    /// The actor was not running: nothing to wait for.
    AlreadyStopped,
}

/// The lifecycle state of an actor.
pub struct ActorState {
    pub running: bool,
    pub has_parts: bool,
    pub has_handle: bool,
}

/// The state after `start`, and whether a task is spawned.
pub open spec fn start_state(s: ActorState) -> (ActorState, bool) {
    if s.running {
        (s, false)
    } else if s.has_parts {
        (ActorState { running: true, has_parts: false, has_handle: s.has_handle }, true)
    } else {
        (s, false)
    }
}

/// The state after `stop`, and whether a task is awaited.
pub open spec fn stop_state(s: ActorState) -> (ActorState, bool) {
    if !s.running {
        (s, false)
    } else {
        (ActorState { running: false, has_parts: s.has_parts, has_handle: false }, true)
    }
}

/// Starting twice in a row is starting once: the second start changes
/// nothing and spawns nothing. Likewise for stopping.
pub proof fn lemma_lifecycle_idempotent(s: ActorState)
    ensures
        start_state(start_state(s).0).0 == start_state(s).0,
        !start_state(start_state(s).0).1,
        stop_state(stop_state(s).0).0 == stop_state(s).0,
        !stop_state(stop_state(s).0).1,
{
}

/// A sink actor: the receiving end of a producer queue `R`, a transport `S`, an
/// encoder `E`, and once started the handle `H` of its task.
pub struct Sender<R, S, E, H> {
    pub name: String,
    pub running: bool,
    pub receiver: Option<R>,
    pub sender: Option<S>,
    pub encoder: Option<E>,
    pub handle: Option<H>,
}

impl<R, S, E, H> Sender<R, S, E, H> {
    /// The lifecycle state of the actor.
    pub open spec fn state(&self) -> ActorState {
        ActorState {
            running: self.running,
            has_parts: self.receiver.is_some(),
            has_handle: self.handle.is_some(),
        }
    }

    /// Parts are held all together or not at all.
    pub open spec fn wf(&self) -> bool {
        self.receiver.is_some() == self.sender.is_some() && self.receiver.is_some()
            == self.encoder.is_some()
    }

    pub open spec fn name_view(&self) -> Seq<char> {
        self.name@
    }

    /// An idle actor over the given parts.
    pub fn new(name: String, receiver: R, sender: S, encoder: E) -> (r: Self)
        ensures
            r.wf(),
            r.state() == (ActorState { running: false, has_parts: true, has_handle: false }),
            r.name_view() == name@,
            r.receiver == Some(receiver),
            r.sender == Some(sender),
            r.encoder == Some(encoder),
            r.handle.is_none(),
    {
        Sender {
            name,
            running: false,
            receiver: Some(receiver),
            sender: Some(sender),
            encoder: Some(encoder),
            handle: None,
        }
    }

    /// The name of the actor.
    pub fn name(&self) -> (r: &str)
        ensures
            r@ == self.name_view(),
    {
        self.name.as_str()
    }

    /// Whether the actor is running.
    pub fn is_running(&self) -> (r: bool)
        ensures
            r == self.state().running,
    {
        self.running
    }

    /// Starts the actor: an idle actor hands out its parts to be run and is
    /// running from then on; a running one is left as it is.
    pub fn start(&mut self) -> (r: StartOutcome<R, S, E>)
        requires
            old(self).wf(),
        ensures
            final(self).wf(),
            final(self).state() == start_state(old(self).state()).0,
            final(self).name_view() == old(self).name_view(),
            r is Spawn == start_state(old(self).state()).1,
            r is AlreadyRunning == old(self).state().running,
            r is Exhausted == (!old(self).state().running && !old(self).state().has_parts),
            r matches StartOutcome::Spawn(a, b, c) ==> old(self).receiver == Some(a) && old(
                self,
            ).sender == Some(b) && old(self).encoder == Some(c),
            r is Spawn ==> final(self).handle == old(self).handle && final(self).receiver.is_none()
                && final(self).sender.is_none() && final(self).encoder.is_none(),
            !(r is Spawn) ==> *final(self) == *old(self),
    {
        if self.running {
            return StartOutcome::AlreadyRunning;
        }
        if self.receiver.is_none() {
            return StartOutcome::Exhausted;
        }
        match (self.receiver.take(), self.sender.take(), self.encoder.take()) {
            (Some(receiver), Some(sender), Some(encoder)) => {
                self.running = true;
                StartOutcome::Spawn(receiver, sender, encoder)
            },
            _ => StartOutcome::Exhausted,
        }
    }

    /// Keeps the handle of the task spawned for the last start.
    pub fn started(&mut self, handle: H)
        requires
            old(self).wf(),
        ensures
            final(self).wf(),
            final(self).state() == (ActorState { has_handle: true, ..old(self).state() }),
            final(self).name_view() == old(self).name_view(),
            final(self).handle == Some(handle),
            final(self).receiver == old(self).receiver,
            final(self).sender == old(self).sender,
            final(self).encoder == old(self).encoder,
            final(self).running == old(self).running,
    {
        self.handle = Some(handle);
    }

    /// Stops the actor: a running actor stops running and hands back its
    /// task handle to be awaited; a stopped one is left as it is.
    pub fn stop(&mut self) -> (r: StopOutcome<H>)
        requires
            old(self).wf(),
        ensures
            final(self).wf(),
            final(self).state() == stop_state(old(self).state()).0,
            final(self).name_view() == old(self).name_view(),
            r is Join == stop_state(old(self).state()).1,
            r matches StopOutcome::Join(h) ==> h == old(self).handle,
            r is Join ==> final(self).handle.is_none() && final(self).receiver == old(self).receiver
                && final(self).sender == old(self).sender && final(self).encoder == old(self).encoder,
            r is AlreadyStopped ==> *final(self) == *old(self),
    {
        if !self.running {
            return StopOutcome::AlreadyStopped;
        }
        self.running = false;
        StopOutcome::Join(self.handle.take())
    }
}

/// One turn of the actor loop on a received batch: the batch is encoded
/// into a fresh buffer, which is then handed to the transport.
pub fn encode_batch<T: Sendable>(encoder: &mut CsvEncoder, batch: &Vec<T>) -> (r: Result<Vec<u8>, SendError>)
    ensures
        final(encoder).format == old(encoder).format,
        r.is_ok() == ((batch@.len() == 0 || old(encoder).width_ok(1))
            && forall|i: int| 0 <= i < batch@.len() ==> !(#[trigger] batch@[i]).encode_fails()),
        r matches Ok(v) ==> v@ == batch_text(old(encoder).format, encoded_all(batch@)),
        r matches Err(e) ==> e is Encode,
{
    let mut out: Vec<u8> = Vec::new();
    match encoder.encode(batch, &mut out) {
        Ok(()) => {
            assert(out@ =~= Seq::<u8>::empty() + batch_text(old(encoder).format, encoded_all(batch@)));
            Ok(out)
        },
        Err(e) => Err(SendError::Encode(e)),
    }
}

/// What the actor loop does next.
pub enum LoopAction {
    /// End the loop with success.
    Finish,
    /// Hand these encoded bytes to the transport, then wait for the next
    /// batch.
    Send(Vec<u8>),
    /// End the loop with this error.
    Fail(SendError),
}

/// One decision of the actor loop, taken each time it wakes: once the
/// running flag is cleared the loop ends; a closed queue (`received` is
/// `None`) ends it with success; a received batch is encoded into a fresh
/// buffer for the transport, and a failure to encode ends the loop with
/// that error.
pub fn loop_step<T: Sendable>(running: bool, received: Option<&Vec<T>>, encoder: &mut CsvEncoder) -> (r: LoopAction)
    ensures
        !running ==> r is Finish && *final(encoder) == *old(encoder),
        running && received is None ==> r is Finish && *final(encoder) == *old(encoder),
        running && received is Some ==> !(r is Finish),
        running && received is Some ==> (r is Send == ((received.unwrap()@.len() == 0 || old(
            encoder,
        ).width_ok(1)) && forall|i: int|
            0 <= i < received.unwrap()@.len() ==> !(#[trigger] received.unwrap()@[i]).encode_fails())),
        r matches LoopAction::Send(v) ==> running && received is Some && v@ == batch_text(
            old(encoder).format,
            encoded_all(received.unwrap()@),
        ),
        r matches LoopAction::Fail(e) ==> e is Encode,
        final(encoder).format == old(encoder).format,
{
    if !running {
        return LoopAction::Finish;
    }
    match received {
        None => LoopAction::Finish,
        Some(batch) => match encode_batch(encoder, batch) {
            Ok(v) => LoopAction::Send(v),
            Err(e) => LoopAction::Fail(e),
        },
    }
}

} // verus!
