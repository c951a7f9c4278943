//! The orchestrator: one run of the pipeline as a state machine. The run
//! resolves the manifest (from the local cache or a fresh response), fetches
//! the asset index, plans the missing downloads, and summarizes the
//! outcomes. A failure in either of the first two stages is fatal — the run
//! aborts before any download task exists — while individual download
//! failures are isolated inside the bounded downloader.
//!
//! The caller performs every network and filesystem effect and feeds the
//! outcomes in as events.

use vstd::prelude::*;

use crate::downloader::BoundedDownloader;
use crate::downloader::DownloadResult;
use crate::downloader::has_result_for;
use crate::errors::spec_status_ok;
use crate::errors::status_ok;
use crate::errors::FetchError;
use crate::json::json_of;
use crate::manifest::lemma_index_hashes;
use crate::manifest::parse_asset_index_text;
use crate::manifest::parse_manifest_text;
use crate::manifest::spec_index_of;
use crate::manifest::spec_manifest_of;
use crate::paths::spec_asset_dest;
use crate::plan::lemma_every_asset_accounted;
use crate::plan::plan_downloads;
use crate::plan::spec_plan;
use crate::store::ContentStore;
use crate::types::AssetObjectV;
use crate::types::DownloadTask;
use crate::types::VersionManifest;
use crate::types::VersionManifestV;

verus! {

/// How the manifest document was obtained: read back from the local cache
/// (trusted forever once present, no network call), or freshly fetched with
/// an HTTP status, or not obtained at all.
pub enum ManifestSource {
    Cached { body: String },
    Fetched { status: u16, body: String },
    TransportFailure,
}

/// How the asset index fetch went: the index is always fetched fresh.
pub enum IndexFetch {
    Fetched { status: u16, body: String },
    TransportFailure,
}

/// Where a run stands.
pub enum PipelineStage {
    ResolvingManifest,
    FetchingIndex { manifest: VersionManifest },
    Downloading,
    Finished { successes: usize, failures: usize },
    Aborted { error: FetchError },
}

/// One run of the install pipeline.
pub struct Pipeline {
    pub stage: PipelineStage,
    pub target: String,
    pub concurrency: usize,
}

/// What the manifest stage yields for a given event: a transport failure or
/// non-2xx status is a `NetworkError`, an unreadable body a `ParseError`,
/// and otherwise the parsed manifest.
pub open spec fn spec_manifest_outcome(src: ManifestSource) -> Result<
    VersionManifestV,
    FetchError,
> {
    match src {
        ManifestSource::Cached { body } => spec_parse_manifest(body@),
        ManifestSource::Fetched { status, body } => if !spec_status_ok(status) {
            Err(FetchError::NetworkError)
        } else {
            spec_parse_manifest(body@)
        },
        ManifestSource::TransportFailure => Err(FetchError::NetworkError),
    }
}

/// What parsing a manifest text yields.
pub open spec fn spec_parse_manifest(s: Seq<char>) -> Result<VersionManifestV, FetchError> {
    match json_of(s) {
        Some(j) => match spec_manifest_of(j) {
            Some(m) => Ok(m),
            None => Err(FetchError::ParseError),
        },
        None => Err(FetchError::ParseError),
    }
}

/// What the index stage yields for a given event.
pub open spec fn spec_index_outcome(fetch: IndexFetch) -> Result<Seq<AssetObjectV>, FetchError> {
    match fetch {
        IndexFetch::Fetched { status, body } => if !spec_status_ok(status) {
            Err(FetchError::NetworkError)
        } else {
            match json_of(body@) {
                Some(j) => match spec_index_of(j) {
                    Some(objs) => Ok(objs),
                    None => Err(FetchError::ParseError),
                },
                None => Err(FetchError::ParseError),
            }
        },
        IndexFetch::TransportFailure => Err(FetchError::NetworkError),
    }
}

/// A manifest response with a non-2xx status is fatal, whatever its body:
/// the run ends in `NetworkError` before any asset or library task exists.
pub proof fn lemma_fatal_manifest_stage(src: ManifestSource)
    requires
        src matches ManifestSource::Fetched { status, body } && !spec_status_ok(status),
    ensures
        spec_manifest_outcome(src) == Result::<VersionManifestV, FetchError>::Err(
            FetchError::NetworkError,
        ),
{
}

impl Pipeline {
    /// The run's configuration is sound: a positive concurrency bound.
    pub open spec fn wf(self) -> bool {
        self.concurrency >= 1
    }

    /// A fresh run for the given target platform and concurrency bound.
    pub fn new(target: String, concurrency: usize) -> (r: Pipeline)
        requires
            concurrency >= 1,
        ensures
            r.wf(),
            r.stage is ResolvingManifest,
            r.target == target,
            r.concurrency == concurrency,
    {
        Pipeline { stage: PipelineStage::ResolvingManifest, target, concurrency }
    }

    /// Feeds in the manifest document (or its failure). On success the run
    /// advances and hands back the asset index URL to fetch next; on
    /// failure the whole run aborts, carrying the error.
    pub fn resolve_manifest(&mut self, src: ManifestSource) -> (r: Result<String, FetchError>)
        requires
            old(self).wf(),
            old(self).stage is ResolvingManifest,
        ensures
            final(self).wf(),
            final(self).target == old(self).target,
            final(self).concurrency == old(self).concurrency,
            match spec_manifest_outcome(src) {
                Ok(m) => {
                    &&& final(self).stage matches PipelineStage::FetchingIndex { manifest }
                        && manifest@ == m
                    &&& r matches Ok(u) && u@ == m.index_url
                },
                Err(e) => {
                    &&& final(self).stage matches PipelineStage::Aborted { error } && error == e
                    &&& r matches Err(e2) && e2 == e
                },
            },
    {
        let body = match src {
            ManifestSource::Cached { body } => body,
            ManifestSource::Fetched { status, body } => {
                if !status_ok(status) {
                    self.stage = PipelineStage::Aborted { error: FetchError::NetworkError };
                    return Err(FetchError::NetworkError);
                }
                body
            },
            ManifestSource::TransportFailure => {
                self.stage = PipelineStage::Aborted { error: FetchError::NetworkError };
                return Err(FetchError::NetworkError);
            },
        };
        match parse_manifest_text(body.as_str()) {
            Ok(manifest) => {
                let url = manifest.index_url.clone();
                self.stage = PipelineStage::FetchingIndex { manifest };
                Ok(url)
            },
            Err(e) => {
                self.stage = PipelineStage::Aborted { error: e };
                Err(e)
            },
        }
    }

    /// Feeds in the asset index fetch outcome together with what is already
    /// present. On success the run plans every missing download and hands
    /// back a bounded downloader over exactly that plan; on failure the
    /// whole run aborts before any task exists.
    pub fn start_downloads(
        &mut self,
        fetch: IndexFetch,
        store: &ContentStore,
        libs_present: &Vec<String>,
        client_present: bool,
    ) -> (r: Result<BoundedDownloader, FetchError>)
        requires
            old(self).wf(),
            old(self).stage matches PipelineStage::FetchingIndex { manifest },
        ensures
            final(self).wf(),
            final(self).target == old(self).target,
            final(self).concurrency == old(self).concurrency,
            old(self).stage matches PipelineStage::FetchingIndex { manifest } ==> match spec_index_outcome(
                fetch,
            ) {
                Ok(objs) => {
                    &&& final(self).stage is Downloading
                    &&& r matches Ok(d)
                    &&& d.inv()
                    &&& d.started_count() == 0
                    &&& d.in_flight() == Seq::<usize>::empty()
                    &&& d.results_list() == Seq::<DownloadResult>::empty()
                    &&& d.spec_limit() == old(self).concurrency
                    &&& d.task_list().map_values(|t: DownloadTask| t@) == spec_plan(
                        manifest@,
                        objs,
                        old(self).target@,
                        store@,
                        libs_present@.map_values(|x: String| x@),
                        client_present,
                    )
                },
                Err(e) => {
                    &&& final(self).stage matches PipelineStage::Aborted { error } && error == e
                    &&& r matches Err(e2) && e2 == e
                },
            },
    {
        let body = match fetch {
            IndexFetch::Fetched { status, body } => {
                if !status_ok(status) {
                    self.stage = PipelineStage::Aborted { error: FetchError::NetworkError };
                    return Err(FetchError::NetworkError);
                }
                body
            },
            IndexFetch::TransportFailure => {
                self.stage = PipelineStage::Aborted { error: FetchError::NetworkError };
                return Err(FetchError::NetworkError);
            },
        };
        let index = match parse_asset_index_text(body.as_str()) {
            Ok(index) => index,
            Err(e) => {
                self.stage = PipelineStage::Aborted { error: e };
                return Err(e);
            },
        };
        proof {
            let j = json_of(body@)->Some_0;
            match crate::manifest::key_of(j, "objects"@) {
                Some(crate::json::JsonVal::Obj(es)) => {
                    lemma_index_hashes(es);
                },
                _ => {},
            }
        }
        let tasks = match &self.stage {
            PipelineStage::FetchingIndex { manifest } => plan_downloads(
                manifest,
                &index,
                self.target.as_str(),
                store,
                libs_present,
                client_present,
            ),
            _ => Vec::new(),
        };
        let d = BoundedDownloader::new(tasks, self.concurrency);
        self.stage = PipelineStage::Downloading;
        Ok(d)
    }

    /// Records a filesystem failure met while persisting a document: the
    /// run aborts with a `FilesystemError`.
    pub fn abort_filesystem(&mut self)
        ensures
            final(self).stage matches PipelineStage::Aborted { error }
                && error == FetchError::FilesystemError,
            final(self).target == old(self).target,
            final(self).concurrency == old(self).concurrency,
            old(self).wf() ==> final(self).wf(),
    {
        self.stage = PipelineStage::Aborted { error: FetchError::FilesystemError };
    }

    /// Summarizes a finished run: how many downloads succeeded and how many
    /// failed. Every task is counted exactly once.
    pub fn finish(&mut self, d: &BoundedDownloader) -> (r: (usize, usize))
        requires
            old(self).stage is Downloading,
            d.inv(),
            d.in_flight().len() == 0,
            d.started_count() == d.task_list().len(),
        ensures
            r.0 == count_ok(d.results_list()),
            r.1 == d.results_list().len() - count_ok(d.results_list()),
            r.0 + r.1 == d.task_list().len(),
            final(self).stage == (PipelineStage::Finished { successes: r.0, failures: r.1 }),
            final(self).target == old(self).target,
            final(self).concurrency == old(self).concurrency,
            old(self).wf() ==> final(self).wf(),
    {
        let results = d.results();
        let mut ok_count: usize = 0;
        let mut i: usize = 0;
        while i < results.len()
            invariant
                i <= results.len(),
                results@ == d.results_list(),
                ok_count <= i,
                ok_count == count_ok(results@.take(i as int)),
            decreases results.len() - i,
        {
            let ghost pre1 = results@.take(i as int + 1);
            proof {
                assert(pre1.drop_last() =~= results@.take(i as int));
                assert(pre1.last() == results@[i as int]);
            }
            if results[i].outcome.is_ok() {
                ok_count += 1;
            }
            i += 1;
        }
        proof {
            assert(results@.take(results@.len() as int) =~= results@);
            lemma_count_ok_bound(d.results_list());
            crate::downloader::lemma_every_task_accounted(d);
        }
        let failures = results.len() - ok_count;
        self.stage = PipelineStage::Finished { successes: ok_count, failures };
        (ok_count, failures)
    }
}

/// How many results are successes.
pub open spec fn count_ok(rs: Seq<DownloadResult>) -> int
    decreases rs.len(),
{
    if rs.len() == 0 {
        0
    } else {
        count_ok(rs.drop_last()) + if rs.last().outcome is Ok {
            1int
        } else {
            0int
        }
    }
}

/// The success count never exceeds the number of results.
pub proof fn lemma_count_ok_bound(rs: Seq<DownloadResult>)
    ensures
        0 <= count_ok(rs) <= rs.len(),
    decreases rs.len(),
{
    if rs.len() > 0 {
        lemma_count_ok_bound(rs.drop_last());
    }
}

/// Completeness of a finished run: for every entry of the asset index,
/// either its hash was already in the store when the run was planned, or
/// the run recorded a result — success or failure — for a task targeting
/// exactly that hash's store path. No entry is silently unaccounted for.
pub proof fn lemma_run_completeness(
    d: &BoundedDownloader,
    m: VersionManifestV,
    objs: Seq<AssetObjectV>,
    target: Seq<char>,
    store: Set<Seq<char>>,
    libs_present: Seq<Seq<char>>,
    client_present: bool,
)
    requires
        d.inv(),
        d.in_flight().len() == 0,
        d.started_count() == d.task_list().len(),
        d.task_list().map_values(|t: DownloadTask| t@) == spec_plan(
            m,
            objs,
            target,
            store,
            libs_present,
            client_present,
        ),
    ensures
        forall|i: int|
            0 <= i < objs.len() ==> store.contains((#[trigger] objs[i]).hash) || exists|j: int|
                0 <= j < d.results_list().len() && (#[trigger] d.results_list()[j]).task@.dest_path
                    == spec_asset_dest(objs[i].hash),
{
    lemma_every_asset_accounted(objs, store);
    crate::downloader::lemma_every_task_accounted(d);
    let plan = spec_plan(m, objs, target, store, libs_present, client_present);
    let assets = crate::plan::spec_asset_tasks(objs, store);
    let prefix_len = plan.len() - assets.len();
    assert forall|i: int|
        0 <= i < objs.len() && !store.contains((#[trigger] objs[i]).hash) implies exists|j: int|
        0 <= j < d.results_list().len() && (#[trigger] d.results_list()[j]).task@.dest_path
            == spec_asset_dest(objs[i].hash) by {
        let t = crate::plan::spec_asset_task(objs[i].hash);
        assert(assets.contains(t));
        let k = choose|k: int| 0 <= k < assets.len() && assets[k] == t;
        assert(plan[prefix_len + k] == t);
        assert(d.task_list().map_values(|x: DownloadTask| x@)[prefix_len + k] == t);
        assert(d.task_list()[prefix_len + k]@ == t);
        assert(has_result_for(d.results_list(), d.task_list(), prefix_len + k));
        let j = choose|j: int|
            0 <= j < d.results_list().len() && (#[trigger] d.results_list()[j]).task_index
                == prefix_len + k && d.results_list()[j].task == d.task_list()[prefix_len + k];
        assert(d.results_list()[j].task@.dest_path == spec_asset_dest(objs[i].hash));
    }
}

} // verus!
