//! Construction of telemetry points.

use vstd::prelude::*;

use crate::models::{tag_key, tags_wf, TelemetryData};

verus! {

/// A builder for telemetry points: metric name and measurement first, then
/// optional tags and an optional timestamp, then `build`.
///
/// The fields are public so that contracts can speak of them directly; the
/// chained methods below keep the tag keys unique.
#[derive(Debug)]
pub struct TelemetryBuilder {
    /// The metric name.
    pub metric: String,
    /// The measurement, as the bit pattern of a 64-bit IEEE-754 value.
    pub value_bits: u64,
    /// The tags gathered so far; keys unique.
    pub tags: Vec<(String, String)>,
    /// The explicit timestamp, if one was set.
    pub timestamp: Option<i64>,
}

/// Relies on std::time::SystemTime::now and its distance from the Unix epoch:
/// the current wall-clock time in milliseconds, or nothing when the clock
/// reads before the epoch. Nothing is promised of the value: it depends on
/// the moment of the call.
#[verifier::external_body]
fn now_unix_millis() -> Option<i64> {
    std::time::SystemTime::now()
        .duration_since(std::time::UNIX_EPOCH)
        .ok()
        .map(|d| d.as_millis() as i64)
}

impl TelemetryBuilder {
    /// Starts a point for the given metric name and measurement. The name is
    /// not validated here: an empty name is accepted, and rejecting it
    /// belongs to a higher layer.
    pub fn new(metric: String, value_bits: u64) -> (r: Self)
        ensures
            r.metric == metric,
            r.value_bits == value_bits,
            r.tags@ == Seq::<(String, String)>::empty(),
            r.timestamp is None,
    {
        TelemetryBuilder { metric, value_bits, tags: Vec::new(), timestamp: None }
    }

    /// Adds a tag. A tag with the same key replaces the earlier value in
    /// place; a new key is appended. Keys stay unique.
    pub fn with_tag(self, key: String, value: String) -> (r: Self)
        requires
            tags_wf(self.tags@),
        ensures
            r.metric == self.metric,
            r.value_bits == self.value_bits,
            r.timestamp == self.timestamp,
            tags_wf(r.tags@),
            (forall|i: int| 0 <= i < self.tags@.len() ==> #[trigger] self.tags@[i].0@ != key@)
                ==> r.tags@ == self.tags@.push((key, value)),
            forall|i: int|
                0 <= i < self.tags@.len() && #[trigger] self.tags@[i].0@ == key@ ==> r.tags@
                    == self.tags@.update(i, (key, value)),
    {
        let mut this = self;
        let mut i: usize = 0;
        while i < this.tags.len()
            invariant
                i <= this.tags.len(),
                this == self,
                tags_wf(self.tags@),
                forall|j: int| 0 <= j < i ==> #[trigger] this.tags@[j].0@ != key@,
            decreases this.tags.len() - i,
        {
            if this.tags[i].0 == key {
                this.tags[i] = (key, value);
                proof {
                    let t0 = self.tags@;
                    let t1 = this.tags@;
                    let ii = i as int;
                    assert(tag_key(t0, ii) == key@);
                    assert forall|k: int|
                        0 <= k < t0.len() && k != ii implies #[trigger] t0[k].0@ != key@ by {
                        if k < ii {
                            assert(tag_key(t0, k) != tag_key(t0, ii));
                        } else {
                            assert(tag_key(t0, ii) != tag_key(t0, k));
                        }
                    }
                    assert forall|a: int, b: int|
                        0 <= a < b < t1.len() implies tag_key(t1, a) != tag_key(t1, b) by {
                        if a != ii && b != ii {
                            assert(tag_key(t0, a) != tag_key(t0, b));
                        }
                    }
                }
                return this;
            }
            i += 1;
        }
        this.tags.push((key, value));
        proof {
            let t0 = self.tags@;
            let t1 = this.tags@;
            assert forall|a: int, b: int|
                0 <= a < b < t1.len() implies tag_key(t1, a) != tag_key(t1, b) by {
                if b == t0.len() {
                    assert(t0[a].0@ != key@);
                    assert(tag_key(t1, b) == key@);
                } else {
                    assert(tag_key(t0, a) != tag_key(t0, b));
                }
            }
        }
        this
    }

    /// Sets the timestamp, in milliseconds since the Unix epoch.
    pub fn with_timestamp(self, timestamp: i64) -> (r: Self)
        ensures
            r.metric == self.metric,
            r.value_bits == self.value_bits,
            r.tags@ == self.tags@,
            r.timestamp == Some(timestamp),
    {
        TelemetryBuilder { timestamp: Some(timestamp), ..self }
    }

    /// Finishes the point. Every gathered field is carried over unchanged;
    /// if no timestamp was set, the current wall-clock time is captured now,
    /// at build time, not at submission time.
    pub fn build(self) -> (r: TelemetryData)
        ensures
            r.metric == self.metric,
            r.value_bits == self.value_bits,
            r.tags@ == self.tags@,
            self.timestamp matches Some(t) ==> r.timestamp == Some(t),
    {
        let timestamp = match self.timestamp {
            Some(t) => Some(t),
            None => now_unix_millis(),
        };
        TelemetryData {
            metric: self.metric,
            value_bits: self.value_bits,
            tags: self.tags,
            timestamp,
        }
    }
}

} // verus!
