//! The buffering client: concurrent-safe accumulation of telemetry points,
//! the size-triggered flush trigger, and the atomic drain protocol.
//!
//! The client here is the state machine alone: `record` and `flush` return
//! the batch that must be delivered, if one was drained, and the embedding
//! application performs the network call outside the exclusive-access window,
//! so an in-flight delivery never blocks concurrent `record` calls filling
//! the next batch. Points drained for a delivery that then fails are dropped,
//! not re-queued: a failed flush loses its batch, by design.

use vstd::prelude::*;

use crate::error::Error;
use crate::models::{TelemetryBatch, TelemetryData};

verus! {

/// One `record` transition on the buffer contents: the point is appended; if
/// the buffer has then reached the threshold it is drained whole. Returns the
/// buffer afterwards and the drained batch, if any.
pub open spec fn record_step(
    buf: Seq<TelemetryData>,
    threshold: int,
    point: TelemetryData,
) -> (Seq<TelemetryData>, Option<Seq<TelemetryData>>) {
    let appended = buf.push(point);
    if appended.len() >= threshold {
        (Seq::empty(), Some(appended))
    } else {
        (appended, None)
    }
}

/// The buffer contents and the sequence of drained batches after a run of
/// `record` calls submitting `inputs` in order, starting from `buf`.
pub open spec fn run_records(
    buf: Seq<TelemetryData>,
    threshold: int,
    inputs: Seq<TelemetryData>,
) -> (Seq<TelemetryData>, Seq<Seq<TelemetryData>>)
    decreases inputs.len(),
{
    if inputs.len() == 0 {
        (buf, Seq::empty())
    } else {
        let step = record_step(buf, threshold, inputs[0]);
        let rest = run_records(step.0, threshold, inputs.skip(1));
        let drained = match step.1 {
            Some(b) => seq![b],
            None => Seq::empty(),
        };
        (rest.0, drained + rest.1)
    }
}

/// All points of a sequence of batches, in delivery order.
pub open spec fn concat_all(batches: Seq<Seq<TelemetryData>>) -> Seq<TelemetryData>
    decreases batches.len(),
{
    if batches.len() == 0 {
        Seq::empty()
    } else {
        batches[0] + concat_all(batches.skip(1))
    }
}

/// A client that buffers telemetry points and drains them in batches.
///
/// The embedding application must guard one instance with an exclusive lock
/// when callers share it: every call of `record` or `flush` takes `&mut self`
/// and is one atomic append-check-drain step of the model above.
#[derive(Debug, Clone)]
pub struct TelemetryClient {
    buffer: Vec<TelemetryData>,
    batch_size: usize,
}

impl TelemetryClient {
    /// The points currently buffered, oldest first.
    pub closed spec fn buffered(self) -> Seq<TelemetryData> {
        self.buffer@
    }

    /// The configured capacity threshold.
    pub closed spec fn threshold(self) -> int {
        self.batch_size as int
    }

    /// A fresh client with the default capacity threshold of 100 and an
    /// empty buffer.
    pub fn new() -> (r: Self)
        ensures
            r.buffered() == Seq::<TelemetryData>::empty(),
            r.threshold() == 100,
    {
        TelemetryClient { buffer: Vec::with_capacity(100), batch_size: 100 }
    }

    /// Sets the capacity threshold; the buffered points are kept.
    pub fn with_batch_size(self, batch_size: usize) -> (r: Self)
        requires
            batch_size >= 1,
        ensures
            r.buffered() == self.buffered(),
            r.threshold() == batch_size,
    {
        TelemetryClient { batch_size, ..self }
    }

    /// Appends one point to the buffer. If the buffer has then reached the
    /// capacity threshold, it is drained whole, exactly once, and the drained
    /// batch is returned so the caller can attempt its delivery; the points
    /// stand in it in submission order. Below the threshold nothing is
    /// drained and the point waits in the buffer.
    pub fn record(&mut self, data: TelemetryData) -> (r: Option<TelemetryBatch>)
        ensures
            final(self).threshold() == old(self).threshold(),
            old(self).buffered().len() + 1 >= old(self).threshold() ==> (r matches Some(batch)
                && batch.points@ == old(self).buffered().push(data)
                && final(self).buffered() == Seq::<TelemetryData>::empty()),
            old(self).buffered().len() + 1 < old(self).threshold() ==> (r is None
                && final(self).buffered() == old(self).buffered().push(data)),
            ({
                let step = record_step(old(self).buffered(), old(self).threshold(), data);
                final(self).buffered() == step.0 && match r {
                    Some(batch) => step.1 == Some(batch.points@),
                    None => step.1 is None,
                }
            }),
    {
        self.buffer.push(data);
        if self.buffer.len() >= self.batch_size {
            self.flush()
        } else {
            None
        }
    }

    /// Atomically drains the buffer: the buffer is left empty in one step,
    /// and the drained points are returned as the batch to deliver, in
    /// submission order. An empty buffer is a no-op: nothing is returned and
    /// no delivery is owed. The buffer is empty afterwards whether or not the
    /// subsequent delivery succeeds: a failed delivery does not restore its
    /// points.
    pub fn flush(&mut self) -> (r: Option<TelemetryBatch>)
        ensures
            final(self).threshold() == old(self).threshold(),
            final(self).buffered() == Seq::<TelemetryData>::empty(),
            old(self).buffered().len() == 0 ==> r is None,
            old(self).buffered().len() > 0 ==> (r matches Some(batch)
                && batch.points@ == old(self).buffered()),
    {
        let mut points: Vec<TelemetryData> = Vec::new();
        core::mem::swap(&mut self.buffer, &mut points);
        if points.is_empty() {
            None
        } else {
            Some(TelemetryBatch { points })
        }
    }
}

/// As long as a run of `record` calls never fills the buffer to the
/// threshold, no batch is drained for delivery and every recorded point
/// stays in the buffer, after the points already there, in submission order.
pub proof fn lemma_below_threshold_keeps_all(
    buf: Seq<TelemetryData>,
    threshold: int,
    inputs: Seq<TelemetryData>,
)
    requires
        buf.len() + inputs.len() < threshold,
    ensures
        run_records(buf, threshold, inputs).0 == buf + inputs,
        run_records(buf, threshold, inputs).1 == Seq::<Seq<TelemetryData>>::empty(),
    decreases inputs.len(),
{
    if inputs.len() == 0 {
        assert(buf + inputs =~= buf);
    } else {
        let appended = buf.push(inputs[0]);
        lemma_below_threshold_keeps_all(appended, threshold, inputs.skip(1));
        assert(appended + inputs.skip(1) =~= buf + inputs);
    }
}

/// A run of `record` calls that first reaches the threshold exactly at its
/// last call drains exactly one batch, holding the prior buffer contents and
/// then every submitted point, in submission order, and leaves the buffer
/// empty.
pub proof fn lemma_reaching_threshold_drains_once(
    buf: Seq<TelemetryData>,
    threshold: int,
    inputs: Seq<TelemetryData>,
)
    requires
        inputs.len() >= 1,
        buf.len() + inputs.len() == threshold,
    ensures
        run_records(buf, threshold, inputs).0 == Seq::<TelemetryData>::empty(),
        run_records(buf, threshold, inputs).1 == seq![buf + inputs],
    decreases inputs.len(),
{
    let appended = buf.push(inputs[0]);
    if inputs.len() == 1 {
        assert(appended.len() >= threshold);
        let rest = run_records(Seq::<TelemetryData>::empty(), threshold, inputs.skip(1));
        assert(rest.0 == Seq::<TelemetryData>::empty());
        assert(seq![appended] + rest.1 =~= seq![appended]);
        assert(appended =~= buf + inputs);
        assert(seq![appended] =~= seq![buf + inputs]);
    } else {
        assert(appended.len() < threshold);
        lemma_reaching_threshold_drains_once(appended, threshold, inputs.skip(1));
        let rest = run_records(appended, threshold, inputs.skip(1));
        assert(Seq::<Seq<TelemetryData>>::empty() + rest.1 =~= rest.1);
        assert(appended + inputs.skip(1) =~= buf + inputs);
        assert(rest.1 == seq![appended + inputs.skip(1)]);
        assert(seq![appended + inputs.skip(1)] =~= seq![buf + inputs]);
    }
}

/// Submitting exactly `threshold` points into an empty buffer triggers
/// exactly one delivery, of exactly those points in submission order, and
/// leaves the buffer empty.
pub proof fn lemma_exact_threshold_single_batch(threshold: int, inputs: Seq<TelemetryData>)
    requires
        1 <= threshold,
        inputs.len() == threshold,
    ensures
        run_records(Seq::empty(), threshold, inputs).0 == Seq::<TelemetryData>::empty(),
        run_records(Seq::empty(), threshold, inputs).1 == seq![inputs],
{
    lemma_reaching_threshold_drains_once(Seq::empty(), threshold, inputs);
    assert(Seq::<TelemetryData>::empty() + inputs =~= inputs);
    assert(seq![Seq::<TelemetryData>::empty() + inputs] =~= seq![inputs]);
}

/// No point is ever lost or duplicated by buffering: across any run of
/// `record` calls, the points drained for delivery, in order, followed by the
/// points still buffered are exactly the starting buffer contents followed by
/// the recorded points. (Points of a batch whose delivery then fails are
/// consumed with that batch: they count as drained, never as buffered.)
pub proof fn lemma_no_point_lost(
    buf: Seq<TelemetryData>,
    threshold: int,
    inputs: Seq<TelemetryData>,
)
    ensures
        concat_all(run_records(buf, threshold, inputs).1) + run_records(buf, threshold, inputs).0
            == buf + inputs,
    decreases inputs.len(),
{
    let r = run_records(buf, threshold, inputs);
    if inputs.len() == 0 {
        assert(concat_all(r.1) + r.0 =~= buf + inputs);
    } else {
        let step = record_step(buf, threshold, inputs[0]);
        let rest = run_records(step.0, threshold, inputs.skip(1));
        lemma_no_point_lost(step.0, threshold, inputs.skip(1));
        let appended = buf.push(inputs[0]);
        match step.1 {
            Some(b) => {
                assert(r.1 =~= seq![appended] + rest.1);
                assert((seq![appended] + rest.1)[0] == appended);
                assert((seq![appended] + rest.1).skip(1) =~= rest.1);
                assert(concat_all(r.1) == appended + concat_all(rest.1));
                assert(step.0 == Seq::<TelemetryData>::empty());
                assert(concat_all(rest.1) + rest.0 == step.0 + inputs.skip(1));
                assert(step.0 + inputs.skip(1) =~= inputs.skip(1));
                assert((appended + concat_all(rest.1)) + rest.0 =~= appended + (concat_all(rest.1)
                    + rest.0));
                assert(appended + inputs.skip(1) =~= buf + inputs);
            },
            None => {
                assert(r.1 =~= rest.1);
                assert(concat_all(rest.1) + rest.0 == appended + inputs.skip(1));
                assert(appended + inputs.skip(1) =~= buf + inputs);
            },
        }
    }
}

/// The decision a delivery attempt ends in, taken from the facts of the
/// transport's answer: a success status (2xx) delivers the batch, any other
/// status is a rejection by the server, reported with the status and the
/// response body text.
pub fn delivery_result(status: u16, body: String) -> (r: Result<(), Error>)
    ensures
        200 <= status < 300 ==> r is Ok,
        !(200 <= status < 300) ==> r == Err::<(), Error>(Error::Server { status, body }),
{
    if 200 <= status && status < 300 {
        Ok(())
    } else {
        Err(Error::Server { status, body })
    }
}

} // verus!
