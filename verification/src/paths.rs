//! Deterministic path and URL construction: the hash-addressed store layout,
//! the asset download URL, the library destination, and the cache locations
//! of the manifest and index documents.

use vstd::prelude::*;
use vstd::string::StrSliceExecFns;
use vstd::string::StringExecFns;

verus! {

/// The hash-prefix bucket: the first two characters of a hash, used as a
/// subdirectory to bound directory fan-out.
pub open spec fn spec_hash_prefix(h: Seq<char>) -> Seq<char> {
    h.subrange(0, 2)
}

/// The location of a content object inside the store: `objects/<h[0:2]>/<h>`.
pub open spec fn spec_store_rel_path(h: Seq<char>) -> Seq<char> {
    "objects/"@ + spec_hash_prefix(h) + "/"@ + h
}

/// Where an asset object lands relative to the instance root.
pub open spec fn spec_asset_dest(h: Seq<char>) -> Seq<char> {
    "assets/"@ + spec_store_rel_path(h)
}

/// The download URL of an asset object, derived from its hash alone.
pub open spec fn spec_asset_url(h: Seq<char>) -> Seq<char> {
    "https://resources.download.minecraft.net/"@ + spec_hash_prefix(h) + "/"@ + h
}

/// Where a library artifact lands relative to the instance root: its
/// manifest-relative path under `libraries/`.
pub open spec fn spec_library_dest(path: Seq<char>) -> Seq<char> {
    "libraries/"@ + path
}

/// Where the client artifact lands relative to the instance root.
pub open spec fn spec_client_dest() -> Seq<char> {
    "client.jar"@
}

/// The cache file of the version manifest, keyed by version identifier.
pub open spec fn spec_manifest_cache_file(version_id: Seq<char>) -> Seq<char> {
    version_id + ".json"@
}

/// Where the raw asset index document is persisted, keyed by index id.
pub open spec fn spec_index_file(index_id: Seq<char>) -> Seq<char> {
    "assets/indexes/"@ + index_id + ".json"@
}

/// Distinct hashes land at distinct asset destinations: the destination
/// path determines the hash, so content-addressed writes never collide.
pub proof fn lemma_asset_dest_injective(h1: Seq<char>, h2: Seq<char>)
    requires
        h1.len() >= 2,
        h2.len() >= 2,
        spec_asset_dest(h1) == spec_asset_dest(h2),
    ensures
        h1 == h2,
{
    let d1 = spec_asset_dest(h1);
    let d2 = spec_asset_dest(h2);
    let off = "assets/"@.len() + "objects/"@.len() + 2 + "/"@.len();
    assert(d1.len() == off + h1.len());
    assert(d2.len() == off + h2.len());
    assert forall|k: int| 0 <= k < h1.len() implies h1[k] == h2[k] by {
        assert(d1[off + k] == h1[k]);
        assert(d2[off + k] == h2[k]);
    }
    assert(h1 =~= h2);
}

/// The first two characters of a content hash.
pub fn hash_prefix(h: &str) -> (r: String)
    requires
        h@.len() >= 2,
    ensures
        r@ == spec_hash_prefix(h@),
{
    h.substring_char(0, 2).to_owned()
}

/// The store-relative location of the object addressed by `h`.
pub fn store_rel_path(h: &str) -> (r: String)
    requires
        h@.len() >= 2,
    ensures
        r@ == spec_store_rel_path(h@),
{
    let mut r = String::from_str("objects/");
    r.append(h.substring_char(0, 2));
    r.append("/");
    r.append(h);
    r
}

/// The instance-relative destination of the asset object addressed by `h`.
pub fn asset_dest(h: &str) -> (r: String)
    requires
        h@.len() >= 2,
    ensures
        r@ == spec_asset_dest(h@),
{
    let mut r = String::from_str("assets/");
    r.append(store_rel_path(h).as_str());
    proof {
        assert(r@ == spec_asset_dest(h@)) by {
            assert(r@ =~= "assets/"@ + spec_store_rel_path(h@));
        }
    }
    r
}

/// The download URL of the asset object addressed by `h`.
pub fn asset_url(h: &str) -> (r: String)
    requires
        h@.len() >= 2,
    ensures
        r@ == spec_asset_url(h@),
{
    let mut r = String::from_str("https://resources.download.minecraft.net/");
    r.append(h.substring_char(0, 2));
    r.append("/");
    r.append(h);
    r
}

/// The instance-relative destination of a library artifact.
pub fn library_dest(path: &str) -> (r: String)
    ensures
        r@ == spec_library_dest(path@),
{
    let mut r = String::from_str("libraries/");
    r.append(path);
    r
}

/// The instance-relative destination of the client artifact.
pub fn client_dest() -> (r: String)
    ensures
        r@ == spec_client_dest(),
{
    String::from_str("client.jar")
}

/// The cache file name of the manifest for `version_id`.
pub fn manifest_cache_file(version_id: &str) -> (r: String)
    ensures
        r@ == spec_manifest_cache_file(version_id@),
{
    let mut r = version_id.to_owned();
    r.append(".json");
    r
}

/// The instance-relative file the raw asset index is persisted at.
pub fn index_file(index_id: &str) -> (r: String)
    ensures
        r@ == spec_index_file(index_id@),
{
    let mut r = String::from_str("assets/indexes/");
    r.append(index_id);
    r.append(".json");
    r
}

} // verus!
