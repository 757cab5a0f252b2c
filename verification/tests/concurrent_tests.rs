use std::sync::atomic::{AtomicU32, Ordering};
use std::sync::Arc;
use std::time::{Duration, Instant};

use pokecache::cache::{Cache, CompositeKey, LockOutcome};
use tokio::sync::Mutex;

fn key(name: &str) -> CompositeKey {
    CompositeKey { name: name.to_string(), type_tag: 1 }
}

/// One caller of the single-flight protocol: look at the slot under the
/// table's lock, and either read the cached value, perform the slow
/// populate while the table itself stays unlocked, or sleep and retry
/// while another caller populates.
async fn fetch_with_slow_populate(
    cache: Arc<Mutex<Cache<String>>>,
    name: String,
    value: String,
    populate_calls: Arc<AtomicU32>,
) -> String {
    loop {
        let outcome = {
            let mut c = cache.lock().await;
            let e = c.entry(key(&name));
            match c.get_or_write_lock(e) {
                LockOutcome::Cached => return c.get(e).unwrap().clone(),
                other => other,
            }
        };
        match outcome {
            LockOutcome::Granted => {
                populate_calls.fetch_add(1, Ordering::SeqCst);
                tokio::time::sleep(Duration::from_millis(150)).await;
                let mut c = cache.lock().await;
                let e = c.entry(key(&name));
                c.set_and_release(e, value.clone());
                return value;
            }
            LockOutcome::Waited => {
                tokio::time::sleep(Duration::from_millis(5)).await;
            }
            LockOutcome::Cached => unreachable!(),
        }
    }
}

fn runtime() -> tokio::runtime::Runtime {
    tokio::runtime::Builder::new_multi_thread()
        .worker_threads(2)
        .enable_time()
        .build()
        .unwrap()
}

/// Two simultaneous callers for one uncached key: the populate runs once,
/// both callers get its value, and the pair finishes in about one
/// populate's time, not two.
#[test]
fn concurrent_callers_coalesce_into_one_populate() {
    runtime().block_on(async {
        let cache = Arc::new(Mutex::new(Cache::new()));
        let calls = Arc::new(AtomicU32::new(0));
        let started = Instant::now();
        let a = tokio::spawn(fetch_with_slow_populate(
            cache.clone(),
            "poke/pikachu".to_string(),
            "{\"name\":\"pikachu\"}".to_string(),
            calls.clone(),
        ));
        let b = tokio::spawn(fetch_with_slow_populate(
            cache.clone(),
            "poke/pikachu".to_string(),
            "{\"name\":\"pikachu\"}".to_string(),
            calls.clone(),
        ));
        let ra = a.await.unwrap();
        let rb = b.await.unwrap();
        let elapsed = started.elapsed();
        assert_eq!(calls.load(Ordering::SeqCst), 1);
        assert_eq!(ra, "{\"name\":\"pikachu\"}");
        assert_eq!(ra, rb);
        assert!(
            elapsed < Duration::from_millis(290),
            "both callers should share one populate, took {elapsed:?}"
        );
    });
}

/// Concurrent populates for two distinct keys run side by side: the pair
/// finishes in about the slower populate's time, not the sum.
#[test]
fn concurrent_distinct_keys_populate_side_by_side() {
    runtime().block_on(async {
        let cache = Arc::new(Mutex::new(Cache::new()));
        let calls = Arc::new(AtomicU32::new(0));
        let started = Instant::now();
        let a = tokio::spawn(fetch_with_slow_populate(
            cache.clone(),
            "poke/pikachu".to_string(),
            "pikachu".to_string(),
            calls.clone(),
        ));
        let b = tokio::spawn(fetch_with_slow_populate(
            cache.clone(),
            "poke/eevee".to_string(),
            "eevee".to_string(),
            calls.clone(),
        ));
        assert_eq!(a.await.unwrap(), "pikachu");
        assert_eq!(b.await.unwrap(), "eevee");
        let elapsed = started.elapsed();
        // one populate per key, neither blocking the other
        assert_eq!(calls.load(Ordering::SeqCst), 2);
        assert!(
            elapsed < Duration::from_millis(290),
            "distinct keys should not serialize, took {elapsed:?}"
        );
    });
}
