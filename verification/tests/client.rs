use axcp_sdk::client::{delivery_result, TelemetryClient};
use axcp_sdk::error::Error;
use axcp_sdk::models::TelemetryData;

fn point(metric: &str) -> TelemetryData {
    TelemetryData {
        metric: metric.to_string(),
        value_bits: 1.0f64.to_bits(),
        tags: Vec::new(),
        timestamp: Some(1),
    }
}

#[test]
fn below_threshold_buffers_everything() {
    // the default threshold is 100: five points trigger no delivery
    let mut client = TelemetryClient::new();
    for i in 0..5 {
        let drained = client.record(point(&format!("m{i}")));
        assert!(drained.is_none());
    }
    // all five points are still buffered, in submission order
    let batch = client.flush().expect("five points were buffered");
    let metrics: Vec<&str> = batch.points.iter().map(|p| p.metric.as_str()).collect();
    assert_eq!(metrics, vec!["m0", "m1", "m2", "m3", "m4"]);
}

#[test]
fn reaching_threshold_drains_exactly_once() {
    let mut client = TelemetryClient::new().with_batch_size(3);
    assert!(client.record(point("a")).is_none());
    assert!(client.record(point("b")).is_none());
    let batch = client.record(point("c")).expect("third point reaches the threshold");
    let metrics: Vec<&str> = batch.points.iter().map(|p| p.metric.as_str()).collect();
    assert_eq!(metrics, vec!["a", "b", "c"]);
    // exactly one delivery: the buffer is empty again
    assert!(client.flush().is_none());
}

#[test]
fn scenario_threshold_three_then_fourth_point() {
    let mut client = TelemetryClient::new().with_batch_size(3);
    assert!(client.record(point("A")).is_none());
    assert!(client.record(point("B")).is_none());
    let batch = client.record(point("C")).expect("C fills the batch");
    let metrics: Vec<&str> = batch.points.iter().map(|p| p.metric.as_str()).collect();
    assert_eq!(metrics, vec!["A", "B", "C"]);
    assert!(client.record(point("D")).is_none());
    let rest = client.flush().expect("D is buffered");
    assert_eq!(rest.points.len(), 1);
    assert_eq!(rest.points[0].metric, "D");
}

#[test]
fn buffer_is_empty_after_flush_even_when_delivery_fails() {
    let mut client = TelemetryClient::new().with_batch_size(10);
    client.record(point("a"));
    client.record(point("b"));
    let batch = client.flush().expect("two points were buffered");
    // the delivery of this batch fails; the points are dropped, not re-queued
    let outcome = delivery_result(500, "boom".to_string());
    assert!(outcome.is_err());
    drop(batch);
    // nothing is duplicated on a subsequent flush
    assert!(client.flush().is_none());
}

#[test]
fn flushing_empty_buffer_is_a_no_op() {
    let mut client = TelemetryClient::new();
    let mut transport_calls = 0;
    if client.flush().is_some() {
        transport_calls += 1;
    }
    assert_eq!(transport_calls, 0);
}

#[test]
fn no_point_is_lost_or_duplicated() {
    // seven records against threshold two: every point is either delivered
    // or still buffered, in submission order
    let mut client = TelemetryClient::new().with_batch_size(2);
    let mut delivered: Vec<String> = Vec::new();
    for i in 0..7 {
        if let Some(batch) = client.record(point(&format!("p{i}"))) {
            for p in batch.points {
                delivered.push(p.metric);
            }
        }
    }
    let mut seen = delivered.clone();
    if let Some(batch) = client.flush() {
        for p in batch.points {
            seen.push(p.metric);
        }
    }
    assert_eq!(delivered.len(), 6);
    assert_eq!(seen, vec!["p0", "p1", "p2", "p3", "p4", "p5", "p6"]);
}

#[test]
fn concurrent_records_lose_nothing() {
    // eight tasks record twenty-five points each against one shared client;
    // every point ends up either delivered or still buffered
    let rt = tokio::runtime::Builder::new_current_thread().build().unwrap();
    let client = std::sync::Arc::new(tokio::sync::Mutex::new(
        TelemetryClient::new().with_batch_size(5),
    ));
    let delivered = std::sync::Arc::new(tokio::sync::Mutex::new(0usize));
    let local = tokio::task::LocalSet::new();
    rt.block_on(local.run_until(async {
        let mut handles = Vec::new();
        for t in 0..8 {
            let client = std::sync::Arc::clone(&client);
            let delivered = std::sync::Arc::clone(&delivered);
            handles.push(tokio::task::spawn_local(async move {
                for i in 0..25 {
                    let drained = {
                        let mut core = client.lock().await;
                        core.record(point(&format!("t{t}.{i}")))
                    };
                    if let Some(batch) = drained {
                        *delivered.lock().await += batch.points.len();
                    }
                }
            }));
        }
        for h in handles {
            h.await.unwrap();
        }
        let remaining = {
            let mut core = client.lock().await;
            core.flush().map(|b| b.points.len()).unwrap_or(0)
        };
        assert_eq!(*delivered.lock().await + remaining, 200);
    }));
}

#[test]
fn delivery_result_classifies_status_codes() {
    assert!(delivery_result(200, String::new()).is_ok());
    assert!(delivery_result(204, String::new()).is_ok());
    assert!(delivery_result(299, String::new()).is_ok());
    let err = delivery_result(404, "not found".to_string()).unwrap_err();
    assert_eq!(err, Error::Server { status: 404, body: "not found".to_string() });
    let err = delivery_result(500, "boom".to_string()).unwrap_err();
    assert_eq!(err, Error::Server { status: 500, body: "boom".to_string() });
}
