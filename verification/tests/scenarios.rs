use mcfetch::downloader::BoundedDownloader;
use mcfetch::errors::FetchError;
use mcfetch::paths::asset_dest;
use mcfetch::plan::plan_asset_tasks;
use mcfetch::plan::plan_downloads;
use mcfetch::run::IndexFetch;
use mcfetch::run::ManifestSource;
use mcfetch::run::Pipeline;
use mcfetch::run::PipelineStage;
use mcfetch::store::ContentStore;
use mcfetch::types::AssetIndex;
use mcfetch::types::AssetObject;
use mcfetch::types::DownloadTask;
use mcfetch::types::VersionManifest;

fn index_abc() -> AssetIndex {
    AssetIndex {
        objects: vec![
            AssetObject { name: "a".to_string(), hash: "aa1111".to_string(), size: 1 },
            AssetObject { name: "b".to_string(), hash: "bb2222".to_string(), size: 2 },
            AssetObject { name: "c".to_string(), hash: "cc3333".to_string(), size: 3 },
        ],
    }
}

fn empty_manifest(client_url: &str) -> VersionManifest {
    VersionManifest {
        client_url: client_url.to_string(),
        index_id: "12".to_string(),
        index_url: "https://example.net/12.json".to_string(),
        libraries: vec![],
    }
}

const MANIFEST: &str = r#"{
  "downloads": { "client": { "url": "https://example.net/client.jar" } },
  "assetIndex": { "id": "12", "url": "https://example.net/indexes/12.json" },
  "libraries": []
}"#;

const INDEX: &str = r#"{ "objects": {
  "a": { "hash": "aa1111", "size": 1 },
  "b": { "hash": "bb2222", "size": 2 },
  "c": { "hash": "cc3333", "size": 3 }
} }"#;

/// Dedup: with A and B already stored, exactly one fetch is planned (for C),
/// and afterwards the store holds all three objects at their prefixed paths.
#[test]
fn dedup_plans_only_the_missing_hash() {
    let mut store = ContentStore::new();
    store.record("aa1111");
    store.record("bb2222");
    let index = index_abc();
    let tasks = plan_asset_tasks(&index, &store);
    assert_eq!(tasks.len(), 1);
    assert_eq!(tasks[0].dest_path, "assets/objects/cc/cc3333");
    assert_eq!(
        tasks[0].source_url,
        "https://resources.download.minecraft.net/cc/cc3333"
    );
    // the download succeeds and is recorded
    store.record("cc3333");
    assert!(store.has("aa1111"));
    assert!(store.has("bb2222"));
    assert!(store.has("cc3333"));
}

/// Dedup within one run: two index entries naming the same hash yield one task.
#[test]
fn duplicate_hashes_yield_one_task() {
    let store = ContentStore::new();
    let index = AssetIndex {
        objects: vec![
            AssetObject { name: "x".to_string(), hash: "dd4444".to_string(), size: 1 },
            AssetObject { name: "y".to_string(), hash: "dd4444".to_string(), size: 1 },
        ],
    };
    let tasks = plan_asset_tasks(&index, &store);
    assert_eq!(tasks.len(), 1);
}

/// Idempotence: with everything present, a run plans nothing, so a second
/// run against a populated instance issues no network request and leaves the
/// store as it was.
#[test]
fn second_run_plans_nothing() {
    let mut store = ContentStore::new();
    store.record("aa1111");
    store.record("bb2222");
    store.record("cc3333");
    let index = index_abc();
    let manifest = empty_manifest("https://example.net/client.jar");
    let tasks = plan_downloads(&manifest, &index, "windows", &store, &vec![], true);
    assert!(tasks.is_empty());
    assert!(store.has("aa1111"));
    assert!(store.has("bb2222"));
    assert!(store.has("cc3333"));
}

/// Concurrency bound: with more tasks than slots, at most `limit` tasks are
/// ever in flight, whichever way the machine is driven.
#[test]
fn in_flight_never_exceeds_limit() {
    let tasks: Vec<DownloadTask> = (0..5)
        .map(|i| DownloadTask {
            source_url: format!("https://example.net/{}", i),
            dest_path: format!("dest/{}", i),
        })
        .collect();
    let mut d = BoundedDownloader::new(tasks, 2);
    let mut max_in_flight = 0;
    let mut next_round = Vec::new();
    while !d.done() {
        while let Some((i, _task)) = d.next_task() {
            next_round.push(i);
            assert!(d.in_flight_count() <= 2);
            max_in_flight = max_in_flight.max(d.in_flight_count());
        }
        let i = next_round.pop().unwrap();
        d.complete(i, Ok(()));
    }
    assert_eq!(max_in_flight, 2);
    assert_eq!(d.results().len(), 5);
}

/// Isolated failure: one failing download out of three is recorded as the
/// one failure; the other two succeed and land in the store.
#[test]
fn one_failure_leaves_siblings_alone() {
    let mut store = ContentStore::new();
    let index = index_abc();
    let tasks = plan_asset_tasks(&index, &store);
    assert_eq!(tasks.len(), 3);
    let mut d = BoundedDownloader::new(tasks, 5);
    while let Some((i, task)) = d.next_task() {
        // the fetch for b's URL returns a server error; the others succeed
        if task.source_url.contains("/bb/") {
            d.complete(i, Err(FetchError::NetworkError));
        } else {
            let hash = task.dest_path.rsplit('/').next().unwrap().to_string();
            store.record(&hash);
            d.complete(i, Ok(()));
        }
    }
    assert!(d.done());
    let results = d.results();
    let failures: Vec<_> = results.iter().filter(|r| r.outcome.is_err()).collect();
    let successes = results.iter().filter(|r| r.outcome.is_ok()).count();
    assert_eq!(failures.len(), 1);
    assert_eq!(successes, 2);
    assert_eq!(failures[0].task.dest_path, asset_dest("bb2222"));
    assert!(store.has("aa1111"));
    assert!(store.has("cc3333"));
    assert!(!store.has("bb2222"));
}

/// Completeness: after a run, every index entry is either in the store or
/// named by a reported failure.
#[test]
fn every_entry_accounted_for() {
    let mut store = ContentStore::new();
    store.record("aa1111");
    let index = index_abc();
    let tasks = plan_asset_tasks(&index, &store);
    let mut d = BoundedDownloader::new(tasks, 2);
    loop {
        match d.next_task() {
            Some((i, task)) => {
                if task.source_url.contains("/cc/") {
                    d.complete(i, Err(FetchError::NetworkError));
                } else {
                    let hash = task.dest_path.rsplit('/').next().unwrap().to_string();
                    store.record(&hash);
                    d.complete(i, Ok(()));
                }
            }
            None => {
                if d.done() {
                    break;
                }
            }
        }
    }
    for obj in &index.objects {
        let reported = d
            .results()
            .iter()
            .any(|r| r.task.dest_path == asset_dest(&obj.hash));
        assert!(store.has(&obj.hash) || reported);
    }
}

/// The full pipeline over in-memory documents: resolve, fetch index, plan,
/// download, summarize.
#[test]
fn full_run_summarizes_outcomes() {
    let mut p = Pipeline::new("windows".to_string(), 5);
    let index_url = p
        .resolve_manifest(ManifestSource::Fetched { status: 200, body: MANIFEST.to_string() })
        .unwrap();
    assert_eq!(index_url, "https://example.net/indexes/12.json");
    let store = ContentStore::new();
    let mut d = p
        .start_downloads(
            IndexFetch::Fetched { status: 200, body: INDEX.to_string() },
            &store,
            &vec![],
            false,
        )
        .unwrap();
    // 3 assets + the client
    assert_eq!(d.task_count(), 4);
    while let Some((i, task)) = d.next_task() {
        if task.dest_path == "client.jar" {
            d.complete(i, Ok(()));
        } else if task.source_url.contains("/aa/") {
            d.complete(i, Err(FetchError::NetworkError));
        } else {
            d.complete(i, Ok(()));
        }
    }
    assert!(d.done());
    let (successes, failures) = p.finish(&d);
    assert_eq!(successes, 3);
    assert_eq!(failures, 1);
    assert!(matches!(p.stage, PipelineStage::Finished { .. }));
}

/// A cached manifest is used without any status check.
#[test]
fn cached_manifest_resolves() {
    let mut p = Pipeline::new("windows".to_string(), 5);
    let r = p.resolve_manifest(ManifestSource::Cached { body: MANIFEST.to_string() });
    assert_eq!(r.unwrap(), "https://example.net/indexes/12.json");
    assert!(matches!(p.stage, PipelineStage::FetchingIndex { .. }));
}

/// Fatal stage: a non-2xx manifest response aborts the run before any task
/// exists, with a `NetworkError`.
#[test]
fn fatal_manifest_status_aborts_run() {
    let mut p = Pipeline::new("windows".to_string(), 5);
    let r = p.resolve_manifest(ManifestSource::Fetched {
        status: 503,
        body: MANIFEST.to_string(),
    });
    assert_eq!(r.unwrap_err(), FetchError::NetworkError);
    assert!(matches!(
        p.stage,
        PipelineStage::Aborted { error: FetchError::NetworkError }
    ));
}

/// Fatal stage: a manifest body that fails the schema aborts with a
/// `ParseError`.
#[test]
fn fatal_manifest_parse_aborts_run() {
    let mut p = Pipeline::new("windows".to_string(), 5);
    let r = p.resolve_manifest(ManifestSource::Fetched { status: 200, body: "{}".to_string() });
    assert_eq!(r.unwrap_err(), FetchError::ParseError);
    assert!(matches!(
        p.stage,
        PipelineStage::Aborted { error: FetchError::ParseError }
    ));
}

/// Fatal stage: a failed index fetch aborts the run with a `NetworkError`.
#[test]
fn fatal_index_fetch_aborts_run() {
    let mut p = Pipeline::new("windows".to_string(), 5);
    p.resolve_manifest(ManifestSource::Cached { body: MANIFEST.to_string() })
        .unwrap();
    let store = ContentStore::new();
    let r = p.start_downloads(IndexFetch::TransportFailure, &store, &vec![], false);
    assert_eq!(r.unwrap_err(), FetchError::NetworkError);
    assert!(matches!(
        p.stage,
        PipelineStage::Aborted { error: FetchError::NetworkError }
    ));
}

/// A transport failure on the manifest aborts with a `NetworkError`; a
/// filesystem failure reported by the caller aborts with a
/// `FilesystemError`.
#[test]
fn transport_and_filesystem_aborts() {
    let mut p = Pipeline::new("windows".to_string(), 5);
    let r = p.resolve_manifest(ManifestSource::TransportFailure);
    assert_eq!(r.unwrap_err(), FetchError::NetworkError);

    let mut q = Pipeline::new("windows".to_string(), 5);
    q.abort_filesystem();
    assert!(matches!(
        q.stage,
        PipelineStage::Aborted { error: FetchError::FilesystemError }
    ));
}

/// Library planning respects the platform filter and what is on disk.
#[test]
fn plan_includes_absent_applicable_libraries() {
    let manifest_text = r#"{
      "downloads": { "client": { "url": "https://example.net/client.jar" } },
      "assetIndex": { "id": "12", "url": "https://example.net/indexes/12.json" },
      "libraries": [
        { "downloads": { "artifact": { "path": "a.jar", "url": "https://example.net/a.jar" } } },
        { "downloads": { "artifact": { "path": "b.jar", "url": "https://example.net/b.jar" } },
          "rules": [ { "os": { "name": "osx" } } ] },
        { "downloads": { "artifact": { "path": "c.jar", "url": "https://example.net/c.jar" } } }
      ]
    }"#;
    let m = mcfetch::manifest::parse_manifest_text(manifest_text).unwrap();
    let index = AssetIndex { objects: vec![] };
    let store = ContentStore::new();
    // a.jar is already on disk; b.jar is for another platform; c.jar is planned
    let tasks = plan_downloads(
        &m,
        &index,
        "windows",
        &store,
        &vec!["a.jar".to_string()],
        true,
    );
    assert_eq!(tasks.len(), 1);
    assert_eq!(tasks[0].dest_path, "libraries/c.jar");
    assert_eq!(tasks[0].source_url, "https://example.net/c.jar");
}

/// With limit 1 the downloads are strictly serial.
#[test]
fn limit_one_is_serial() {
    let tasks: Vec<DownloadTask> = (0..3)
        .map(|i| DownloadTask {
            source_url: format!("https://example.net/{}", i),
            dest_path: format!("dest/{}", i),
        })
        .collect();
    let mut d = BoundedDownloader::new(tasks, 1);
    while !d.done() {
        let (i, _task) = d.next_task().unwrap();
        assert_eq!(d.in_flight_count(), 1);
        assert!(d.next_task().is_none());
        d.complete(i, Ok(()));
    }
    assert_eq!(d.results().len(), 3);
}

/// A run over a fully populated instance finishes with nothing to count.
#[test]
fn populated_instance_finishes_empty() {
    let mut p = Pipeline::new("windows".to_string(), 5);
    p.resolve_manifest(ManifestSource::Cached { body: MANIFEST.to_string() })
        .unwrap();
    let mut store = ContentStore::new();
    store.record("aa1111");
    store.record("bb2222");
    store.record("cc3333");
    let mut d = p
        .start_downloads(
            IndexFetch::Fetched { status: 200, body: INDEX.to_string() },
            &store,
            &vec![],
            true,
        )
        .unwrap();
    assert_eq!(d.task_count(), 0);
    assert!(d.next_task().is_none());
    assert!(d.done());
    let (successes, failures) = p.finish(&d);
    assert_eq!(successes, 0);
    assert_eq!(failures, 0);
}
