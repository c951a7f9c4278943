//! Computing the missing-content set: one download task for every asset
//! hash absent from the store (deduplicated within the run), every
//! applicable library artifact absent on disk, and the client artifact if
//! absent. Nothing is planned for content already present.

use vstd::prelude::*;

use crate::filter::spec_lib_included;
use crate::filter::lib_included;
use crate::paths::asset_dest;
use crate::paths::asset_url;
use crate::paths::client_dest;
use crate::paths::library_dest;
use crate::paths::spec_asset_dest;
use crate::paths::spec_asset_url;
use crate::paths::spec_client_dest;
use crate::paths::spec_library_dest;
use crate::store::ContentStore;
use crate::strutil::str_eq;
use crate::types::AssetIndex;
use crate::types::AssetObjectV;
use crate::types::DownloadTask;
use crate::types::DownloadTaskV;
use crate::types::LibraryEntry;
use crate::types::LibraryEntryV;
use crate::types::VersionManifest;
use crate::types::VersionManifestV;

verus! {

/// The task that materializes the asset object addressed by `h`.
pub open spec fn spec_asset_task(h: Seq<char>) -> DownloadTaskV {
    DownloadTaskV { source_url: spec_asset_url(h), dest_path: spec_asset_dest(h) }
}

/// The asset tasks, in index order: one per hash that is neither in `have`
/// nor planned earlier in this very run.
pub open spec fn spec_asset_tasks(objs: Seq<AssetObjectV>, have: Set<Seq<char>>) -> Seq<
    DownloadTaskV,
>
    decreases objs.len(),
{
    if objs.len() == 0 {
        Seq::empty()
    } else {
        let h = objs[0].hash;
        if have.contains(h) {
            spec_asset_tasks(objs.drop_first(), have)
        } else {
            seq![spec_asset_task(h)] + spec_asset_tasks(objs.drop_first(), have.insert(h))
        }
    }
}

/// The hashes the asset tasks are created for, in the same order.
pub open spec fn spec_task_hashes(objs: Seq<AssetObjectV>, have: Set<Seq<char>>) -> Seq<Seq<char>>
    decreases objs.len(),
{
    if objs.len() == 0 {
        Seq::empty()
    } else {
        let h = objs[0].hash;
        if have.contains(h) {
            spec_task_hashes(objs.drop_first(), have)
        } else {
            seq![h] + spec_task_hashes(objs.drop_first(), have.insert(h))
        }
    }
}

/// The task that materializes a library entry's artifact.
pub open spec fn spec_lib_task(e: LibraryEntryV) -> DownloadTaskV {
    DownloadTaskV { source_url: e.url, dest_path: spec_library_dest(e.path) }
}

/// The library tasks, in entry order: one per entry that applies to the
/// target platform and whose artifact path is not already present.
pub open spec fn spec_lib_tasks(
    entries: Seq<LibraryEntryV>,
    target: Seq<char>,
    present: Seq<Seq<char>>,
) -> Seq<DownloadTaskV>
    decreases entries.len(),
{
    if entries.len() == 0 {
        Seq::empty()
    } else {
        let e = entries[0];
        let rest = spec_lib_tasks(entries.drop_first(), target, present);
        if spec_lib_included(e, target) && !present.contains(e.path) {
            seq![spec_lib_task(e)] + rest
        } else {
            rest
        }
    }
}

/// The client task, unless the client artifact is already present.
pub open spec fn spec_client_tasks(client_url: Seq<char>, client_present: bool) -> Seq<
    DownloadTaskV,
> {
    if client_present {
        Seq::empty()
    } else {
        seq![DownloadTaskV { source_url: client_url, dest_path: spec_client_dest() }]
    }
}

/// Everything one run downloads: the client artifact if absent, then the
/// absent applicable library artifacts, then the absent asset objects.
pub open spec fn spec_plan(
    m: VersionManifestV,
    objs: Seq<AssetObjectV>,
    target: Seq<char>,
    store: Set<Seq<char>>,
    libs_present: Seq<Seq<char>>,
    client_present: bool,
) -> Seq<DownloadTaskV> {
    spec_client_tasks(m.client_url, client_present) + spec_lib_tasks(
        m.libraries,
        target,
        libs_present,
    ) + spec_asset_tasks(objs, store)
}

/// Whether `v` holds a string equal to `s`.
fn contains_str(v: &Vec<String>, s: &str) -> (r: bool)
    ensures
        r == v@.map_values(|x: String| x@).contains(s@),
{
    let ghost m = v@.map_values(|x: String| x@);
    let mut i: usize = 0;
    while i < v.len()
        invariant
            i <= v.len(),
            m == v@.map_values(|x: String| x@),
            forall|j: int| 0 <= j < i ==> m[j] != s@,
        decreases v.len() - i,
    {
        if str_eq(v[i].as_str(), s) {
            proof {
                assert(m[i as int] == s@);
            }
            return true;
        }
        i += 1;
    }
    proof {
        if m.contains(s@) {
            let j = choose|j: int| #![trigger m[j]] 0 <= j < m.len() && m[j] == s@;
        }
    }
    false
}

/// Plans the asset tasks: one per hash of the index that is absent from the
/// store, the first occurrence only.
pub fn plan_asset_tasks(index: &AssetIndex, store: &ContentStore) -> (r: Vec<DownloadTask>)
    requires
        forall|i: int| 0 <= i < index@.len() ==> (#[trigger] index@[i]).hash.len() >= 2,
    ensures
        r@.map_values(|t: DownloadTask| t@) == spec_asset_tasks(index@, store@),
{
    let ghost objs = index@;
    let mut out: Vec<DownloadTask> = Vec::new();
    let mut seen = ContentStore::new();
    let mut i: usize = 0;
    proof {
        assert(store@.union(seen@) =~= store@);
        assert(objs.skip(0) =~= objs);
        assert(out@.map_values(|t: DownloadTask| t@) + spec_asset_tasks(objs, store@)
            =~= spec_asset_tasks(objs, store@));
    }
    while i < index.objects.len()
        invariant
            i <= index.objects.len(),
            objs == index@,
            objs.len() == index.objects@.len(),
            forall|k: int| 0 <= k < objs.len() ==> (#[trigger] objs[k]).hash.len() >= 2,
            spec_asset_tasks(objs, store@) == out@.map_values(|t: DownloadTask| t@)
                + spec_asset_tasks(objs.skip(i as int), store@.union(seen@)),
        decreases index.objects.len() - i,
    {
        let ghost tail = objs.skip(i as int);
        let ghost have = store@.union(seen@);
        proof {
            assert(tail.drop_first() =~= objs.skip(i as int + 1));
            assert(tail[0] == objs[i as int]);
        }
        let h = &index.objects[i].hash;
        proof {
            assert(h@ == objs[i as int].hash);
        }
        if store.has(h.as_str()) || seen.has(h.as_str()) {
            proof {
                assert(have.contains(objs[i as int].hash));
            }
        } else {
            proof {
                assert(!have.contains(objs[i as int].hash));
            }
            let t = DownloadTask {
                source_url: asset_url(h.as_str()),
                dest_path: asset_dest(h.as_str()),
            };
            let ghost outv = out@.map_values(|x: DownloadTask| x@);
            out.push(t);
            seen.record(h.as_str());
            proof {
                assert(t@ == spec_asset_task(objs[i as int].hash));
                assert(out@.map_values(|x: DownloadTask| x@) =~= outv.push(t@));
                assert(store@.union(seen@) =~= have.insert(objs[i as int].hash));
                assert(outv.push(t@) + spec_asset_tasks(objs.skip(i as int + 1), have.insert(objs[i as int].hash))
                    =~= outv + (seq![spec_asset_task(objs[i as int].hash)] + spec_asset_tasks(
                    objs.skip(i as int + 1),
                    have.insert(objs[i as int].hash),
                )));
            }
        }
        i += 1;
    }
    proof {
        assert(objs.skip(objs.len() as int) =~= Seq::<AssetObjectV>::empty());
        assert(out@.map_values(|t: DownloadTask| t@) + Seq::<DownloadTaskV>::empty() =~= out@.map_values(
            |t: DownloadTask| t@,
        ));
    }
    out
}

/// Plans the library tasks: one per applicable entry whose artifact is not
/// yet on disk.
pub fn plan_lib_tasks(entries: &Vec<LibraryEntry>, target: &str, libs_present: &Vec<String>) -> (r:
    Vec<DownloadTask>)
    ensures
        r@.map_values(|t: DownloadTask| t@) == spec_lib_tasks(
            entries@.map_values(|e: LibraryEntry| e@),
            target@,
            libs_present@.map_values(|x: String| x@),
        ),
{
    let ghost es = entries@.map_values(|e: LibraryEntry| e@);
    let ghost present = libs_present@.map_values(|x: String| x@);
    let mut out: Vec<DownloadTask> = Vec::new();
    let mut i: usize = 0;
    proof {
        assert(es.skip(0) =~= es);
        assert(out@.map_values(|t: DownloadTask| t@) + spec_lib_tasks(es, target@, present)
            =~= spec_lib_tasks(es, target@, present));
    }
    while i < entries.len()
        invariant
            i <= entries.len(),
            es == entries@.map_values(|e: LibraryEntry| e@),
            present == libs_present@.map_values(|x: String| x@),
            es.len() == entries@.len(),
            spec_lib_tasks(es, target@, present) == out@.map_values(|t: DownloadTask| t@)
                + spec_lib_tasks(es.skip(i as int), target@, present),
        decreases entries.len() - i,
    {
        let ghost tail = es.skip(i as int);
        proof {
            assert(tail.drop_first() =~= es.skip(i as int + 1));
            assert(tail[0] == es[i as int]);
        }
        let e = &entries[i];
        if lib_included(e, target) && !contains_str(libs_present, e.path.as_str()) {
            let t = DownloadTask {
                source_url: e.url.clone(),
                dest_path: library_dest(e.path.as_str()),
            };
            let ghost outv = out@.map_values(|x: DownloadTask| x@);
            out.push(t);
            proof {
                assert(t@ == spec_lib_task(es[i as int]));
                assert(out@.map_values(|x: DownloadTask| x@) =~= outv.push(t@));
                assert(outv.push(t@) + spec_lib_tasks(es.skip(i as int + 1), target@, present)
                    =~= outv + (seq![spec_lib_task(es[i as int])] + spec_lib_tasks(
                    es.skip(i as int + 1),
                    target@,
                    present,
                )));
            }
        }
        i += 1;
    }
    proof {
        assert(es.skip(es.len() as int) =~= Seq::<LibraryEntryV>::empty());
        assert(out@.map_values(|t: DownloadTask| t@) + Seq::<DownloadTaskV>::empty() =~= out@.map_values(
            |t: DownloadTask| t@,
        ));
    }
    out
}

/// Plans the whole run's downloads: client, then libraries, then assets.
pub fn plan_downloads(
    manifest: &VersionManifest,
    index: &AssetIndex,
    target: &str,
    store: &ContentStore,
    libs_present: &Vec<String>,
    client_present: bool,
) -> (r: Vec<DownloadTask>)
    requires
        forall|i: int| 0 <= i < index@.len() ==> (#[trigger] index@[i]).hash.len() >= 2,
    ensures
        r@.map_values(|t: DownloadTask| t@) == spec_plan(
            manifest@,
            index@,
            target@,
            store@,
            libs_present@.map_values(|x: String| x@),
            client_present,
        ),
{
    let mut out: Vec<DownloadTask> = Vec::new();
    if !client_present {
        out.push(
            DownloadTask { source_url: manifest.client_url.clone(), dest_path: client_dest() },
        );
    }
    let mut libs = plan_lib_tasks(&manifest.libraries, target, libs_present);
    let mut assets = plan_asset_tasks(index, store);
    let ghost outv = out@;
    let ghost libsv = libs@;
    let ghost assetsv = assets@;
    out.append(&mut libs);
    out.append(&mut assets);
    proof {
        assert(out@ == outv + libsv + assetsv);
        assert(out@.map_values(|t: DownloadTask| t@) =~= outv.map_values(|t: DownloadTask| t@)
            + libsv.map_values(|t: DownloadTask| t@) + assetsv.map_values(|t: DownloadTask| t@));
        assert(outv.map_values(|t: DownloadTask| t@) =~= spec_client_tasks(
            manifest@.client_url,
            client_present,
        ));
    }
    out
}

/// The asset tasks are exactly one task per planned hash, the planned
/// hashes are pairwise distinct and absent from `have`, and each of them is
/// some entry's hash.
pub proof fn lemma_task_hashes(objs: Seq<AssetObjectV>, have: Set<Seq<char>>)
    ensures
        spec_asset_tasks(objs, have) == spec_task_hashes(objs, have).map_values(
            |h: Seq<char>| spec_asset_task(h),
        ),
        spec_task_hashes(objs, have).no_duplicates(),
        forall|k: int|
            0 <= k < spec_task_hashes(objs, have).len() ==> !have.contains(
                #[trigger] spec_task_hashes(objs, have)[k],
            ),
        forall|k: int|
            0 <= k < spec_task_hashes(objs, have).len() ==> exists|i: int|
                0 <= i < objs.len() && #[trigger] spec_task_hashes(objs, have)[k] == (
                #[trigger] objs[i]).hash,
    decreases objs.len(),
{
    if objs.len() == 0 {
        assert(spec_asset_tasks(objs, have) =~= spec_task_hashes(objs, have).map_values(
            |h: Seq<char>| spec_asset_task(h),
        ));
    } else {
        let h = objs[0].hash;
        let rest = objs.drop_first();
        if have.contains(h) {
            lemma_task_hashes(rest, have);
            assert forall|k: int|
                0 <= k < spec_task_hashes(objs, have).len() implies exists|i: int|
                0 <= i < objs.len() && #[trigger] spec_task_hashes(objs, have)[k] == (
            #[trigger] objs[i]).hash by {
                let i = choose|i: int|
                    0 <= i < rest.len() && spec_task_hashes(rest, have)[k] == (
                    #[trigger] rest[i]).hash;
                assert(objs[i + 1] == rest[i]);
            }
        } else {
            lemma_task_hashes(rest, have.insert(h));
            let hs = spec_task_hashes(objs, have);
            let rhs = spec_task_hashes(rest, have.insert(h));
            assert(hs == seq![h] + rhs);
            assert(spec_asset_tasks(objs, have) =~= hs.map_values(
                |x: Seq<char>| spec_asset_task(x),
            ));
            assert(hs.no_duplicates()) by {
                assert forall|i: int, j: int|
                    0 <= i < hs.len() && 0 <= j < hs.len() && i != j implies hs[i] != hs[j] by {
                    if i == 0 {
                        assert(hs[j] == rhs[j - 1]);
                        assert(!have.insert(h).contains(rhs[j - 1]));
                    } else if j == 0 {
                        assert(hs[i] == rhs[i - 1]);
                        assert(!have.insert(h).contains(rhs[i - 1]));
                    } else {
                        assert(hs[i] == rhs[i - 1]);
                        assert(hs[j] == rhs[j - 1]);
                    }
                }
            }
            assert forall|k: int| 0 <= k < hs.len() implies !have.contains(#[trigger] hs[k]) by {
                if k > 0 {
                    assert(hs[k] == rhs[k - 1]);
                    assert(!have.insert(h).contains(rhs[k - 1]));
                }
            }
            assert forall|k: int|
                0 <= k < hs.len() implies exists|i: int|
                0 <= i < objs.len() && #[trigger] hs[k] == (#[trigger] objs[i]).hash by {
                if k == 0 {
                    assert(hs[0] == objs[0].hash);
                } else {
                    assert(hs[k] == rhs[k - 1]);
                    let i = choose|i: int|
                        0 <= i < rest.len() && rhs[k - 1] == (#[trigger] rest[i]).hash;
                    assert(objs[i + 1] == rest[i]);
                }
            }
        }
    }
}

/// At most one task per store path: two distinct asset tasks of one run
/// never target the same destination.
pub proof fn lemma_one_task_per_store_path(objs: Seq<AssetObjectV>, have: Set<Seq<char>>)
    requires
        forall|i: int| 0 <= i < objs.len() ==> (#[trigger] objs[i]).hash.len() >= 2,
    ensures
        forall|i: int, j: int|
            0 <= i < j < spec_asset_tasks(objs, have).len() ==> (#[trigger] spec_asset_tasks(
                objs,
                have,
            )[i]).dest_path != (#[trigger] spec_asset_tasks(objs, have)[j]).dest_path,
{
    lemma_task_hashes(objs, have);
    let ts = spec_asset_tasks(objs, have);
    let hs = spec_task_hashes(objs, have);
    assert forall|i: int, j: int|
        0 <= i < j < ts.len() implies (#[trigger] ts[i]).dest_path != (
    #[trigger] ts[j]).dest_path by {
        assert(ts[i] == spec_asset_task(hs[i]));
        assert(ts[j] == spec_asset_task(hs[j]));
        let wi = choose|w: int| 0 <= w < objs.len() && hs[i] == (#[trigger] objs[w]).hash;
        let wj = choose|w: int| 0 <= w < objs.len() && hs[j] == (#[trigger] objs[w]).hash;
        if ts[i].dest_path == ts[j].dest_path {
            crate::paths::lemma_asset_dest_injective(hs[i], hs[j]);
        }
    }
}

/// A hash already present never costs a network request: no asset task of
/// the run targets the store path of a hash in `have`.
pub proof fn lemma_no_task_for_present_hash(objs: Seq<AssetObjectV>, have: Set<Seq<char>>, h: Seq<char>)
    requires
        forall|i: int| 0 <= i < objs.len() ==> (#[trigger] objs[i]).hash.len() >= 2,
        h.len() >= 2,
        have.contains(h),
    ensures
        forall|k: int|
            0 <= k < spec_asset_tasks(objs, have).len() ==> (#[trigger] spec_asset_tasks(
                objs,
                have,
            )[k]).dest_path != spec_asset_dest(h),
{
    lemma_task_hashes(objs, have);
    let ts = spec_asset_tasks(objs, have);
    let hs = spec_task_hashes(objs, have);
    assert forall|k: int| 0 <= k < ts.len() implies (#[trigger] ts[k]).dest_path
        != spec_asset_dest(h) by {
        assert(ts[k] == spec_asset_task(hs[k]));
        let w = choose|w: int| 0 <= w < objs.len() && hs[k] == (#[trigger] objs[w]).hash;
        if ts[k].dest_path == spec_asset_dest(h) {
            crate::paths::lemma_asset_dest_injective(hs[k], h);
        }
    }
}

/// With every hash already in the store, no asset task is planned.
pub proof fn lemma_asset_tasks_empty(objs: Seq<AssetObjectV>, have: Set<Seq<char>>)
    requires
        forall|i: int| 0 <= i < objs.len() ==> have.contains((#[trigger] objs[i]).hash),
    ensures
        spec_asset_tasks(objs, have) == Seq::<DownloadTaskV>::empty(),
    decreases objs.len(),
{
    if objs.len() > 0 {
        let rest = objs.drop_first();
        assert(have.contains(objs[0].hash));
        assert forall|i: int| 0 <= i < rest.len() implies have.contains(
            (#[trigger] rest[i]).hash,
        ) by {
            assert(rest[i] == objs[i + 1]);
        }
        lemma_asset_tasks_empty(rest, have);
    }
}

/// With every entry's artifact already on disk, no library task is planned.
pub proof fn lemma_lib_tasks_empty(
    entries: Seq<LibraryEntryV>,
    target: Seq<char>,
    present: Seq<Seq<char>>,
)
    requires
        forall|i: int| 0 <= i < entries.len() ==> present.contains((#[trigger] entries[i]).path),
    ensures
        spec_lib_tasks(entries, target, present) == Seq::<DownloadTaskV>::empty(),
    decreases entries.len(),
{
    if entries.len() > 0 {
        let rest = entries.drop_first();
        assert(present.contains(entries[0].path));
        assert forall|i: int| 0 <= i < rest.len() implies present.contains(
            (#[trigger] rest[i]).path,
        ) by {
            assert(rest[i] == entries[i + 1]);
        }
        lemma_lib_tasks_empty(rest, target, present);
    }
}

/// Idempotence: against a fully populated instance — every index hash in
/// the store, every library artifact and the client already on disk — a run
/// plans no download at all, so it issues no network request and leaves the
/// store unchanged.
pub proof fn lemma_second_run_plans_nothing(
    m: VersionManifestV,
    objs: Seq<AssetObjectV>,
    target: Seq<char>,
    store: Set<Seq<char>>,
    libs_present: Seq<Seq<char>>,
)
    requires
        forall|i: int| 0 <= i < objs.len() ==> store.contains((#[trigger] objs[i]).hash),
        forall|i: int|
            0 <= i < m.libraries.len() ==> libs_present.contains((#[trigger] m.libraries[i]).path),
    ensures
        spec_plan(m, objs, target, store, libs_present, true) == Seq::<DownloadTaskV>::empty(),
{
    lemma_asset_tasks_empty(objs, store);
    lemma_lib_tasks_empty(m.libraries, target, libs_present);
    assert(spec_plan(m, objs, target, store, libs_present, true) =~= Seq::<
        DownloadTaskV,
    >::empty());
}

/// Completeness of the plan: every entry of the index is either already in
/// the store or has an asset task targeting its store path.
pub proof fn lemma_every_asset_accounted(objs: Seq<AssetObjectV>, have: Set<Seq<char>>)
    ensures
        forall|i: int|
            0 <= i < objs.len() ==> have.contains((#[trigger] objs[i]).hash)
                || spec_asset_tasks(objs, have).contains(spec_asset_task(objs[i].hash)),
    decreases objs.len(),
{
    if objs.len() > 0 {
        let h = objs[0].hash;
        let rest = objs.drop_first();
        let ts = spec_asset_tasks(objs, have);
        if have.contains(h) {
            lemma_every_asset_accounted(rest, have);
            assert forall|i: int|
                0 <= i < objs.len() implies have.contains((#[trigger] objs[i]).hash)
                || ts.contains(spec_asset_task(objs[i].hash)) by {
                if i > 0 && !have.contains(objs[i].hash) {
                    assert(rest[i - 1] == objs[i]);
                    assert(spec_asset_tasks(rest, have).contains(spec_asset_task(rest[i - 1].hash)));
                    let j = choose|j: int|
                        0 <= j < spec_asset_tasks(rest, have).len() && #[trigger] spec_asset_tasks(
                            rest,
                            have,
                        )[j] == spec_asset_task(rest[i - 1].hash);
                    assert(ts[j] == spec_asset_task(objs[i].hash));
                }
            }
        } else {
            lemma_every_asset_accounted(rest, have.insert(h));
            assert forall|i: int|
                0 <= i < objs.len() implies have.contains((#[trigger] objs[i]).hash)
                || ts.contains(spec_asset_task(objs[i].hash)) by {
                if i == 0 {
                    assert(ts[0] == spec_asset_task(h));
                    assert(ts.contains(spec_asset_task(h)));
                } else if !have.contains(objs[i].hash) {
                    assert(rest[i - 1] == objs[i]);
                    if objs[i].hash == h {
                        assert(ts[0] == spec_asset_task(objs[i].hash));
                        assert(ts.contains(spec_asset_task(objs[i].hash)));
                    } else {
                        assert(spec_asset_tasks(rest, have.insert(h)).contains(
                            spec_asset_task(rest[i - 1].hash),
                        ));
                        let j = choose|j: int|
                            0 <= j < spec_asset_tasks(rest, have.insert(h)).len()
                                && #[trigger] spec_asset_tasks(rest, have.insert(h))[j]
                                == spec_asset_task(rest[i - 1].hash);
                        assert(ts[j + 1] == spec_asset_task(objs[i].hash));
                        assert(ts.contains(spec_asset_task(objs[i].hash)));
                    }
                }
            }
        }
    }
}

} // verus!
