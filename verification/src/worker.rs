//! The buffer that gathers telemetry events into batches.

use vstd::prelude::*;

verus! {

/// One telemetry event.
#[derive(Debug)]
pub struct MyPayload {
    pub cadence: String,
    pub channel: String,
    pub country_code: String,
    pub metric_name: String,
    pub metric_value: i32,
    pub platform: String,
    pub version: String,
    pub woi: i16,
    pub wos: Option<i16>,
    pub yoi: i16,
    pub yos: i16,
}

/// An event on its way to the worker.
#[derive(Debug)]
pub struct DeliveryMessage(pub MyPayload);

/// How many events make a batch.
pub const BATCH_SIZE: usize = 100;

/// Gathers events until they make a batch.
#[derive(Debug)]
pub struct ActorWorker {
    pub buffer: Vec<MyPayload>,
}

impl ActorWorker {
    /// A worker with an empty buffer.
    pub fn new() -> (worker: ActorWorker)
        ensures
            worker.buffer@.len() == 0,
    {
        ActorWorker { buffer: Vec::new() }
    }

    /// Takes in one event. Once the buffer holds a full batch, the batch is
    /// handed out, in the order in which its events came, and the buffer is
    /// empty again.
    pub fn handle(&mut self, msg: DeliveryMessage) -> (batch: Option<Vec<MyPayload>>)
        ensures
            match batch {
                Some(events) => events@ == old(self).buffer@.push(msg.0) && events@.len()
                    >= BATCH_SIZE && final(self).buffer@.len() == 0,
                None => final(self).buffer@ == old(self).buffer@.push(msg.0)
                    && final(self).buffer@.len() < BATCH_SIZE,
            },
    {
        self.buffer.push(msg.0);
        if self.buffer.len() >= BATCH_SIZE {
            let mut events: Vec<MyPayload> = Vec::new();
            core::mem::swap(&mut self.buffer, &mut events);
            Some(events)
        } else {
            None
        }
    }
}

} // verus!
