//! Reading the version manifest and the asset index out of their JSON
//! documents. What each document must look like, and exactly which
//! documents parse, is stated over the JSON model; a malformed document is
//! a `ParseError`.

use vstd::prelude::*;
use vstd::string::StrSliceExecFns;

use crate::errors::FetchError;
use crate::json::json_as_array;
use crate::json::json_as_str;
use crate::json::json_as_u64;
use crate::json::json_get;
use crate::json::json_model;
use crate::json::json_of;
use crate::json::json_parse;
use crate::json::json_object_entries;
use crate::json::obj_lookup;
use crate::json::JsonVal;
use crate::types::AssetIndex;
use crate::types::AssetObject;
use crate::types::AssetObjectV;
use crate::types::LibraryEntry;
use crate::types::LibraryEntryV;
use crate::types::PlatformRule;
use crate::types::PlatformRuleV;
use crate::types::VersionManifest;
use crate::types::VersionManifestV;

verus! {

/// The value under `k` of an object value; nothing on any other kind.
pub open spec fn key_of(j: JsonVal, k: Seq<char>) -> Option<JsonVal> {
    match j {
        JsonVal::Obj(es) => obj_lookup(es, k),
        _ => None,
    }
}

/// `key_of`, carried through an absent value.
pub open spec fn opt_key(o: Option<JsonVal>, k: Seq<char>) -> Option<JsonVal> {
    match o {
        Some(j) => key_of(j, k),
        None => None,
    }
}

/// The character sequence of a string value; nothing on any other kind.
pub open spec fn str_of(o: Option<JsonVal>) -> Option<Seq<char>> {
    match o {
        Some(JsonVal::Str(s)) => Some(s),
        _ => None,
    }
}

/// The OS name a platform rule names, at `os.name`, if it names one.
pub open spec fn spec_rule_of(j: JsonVal) -> PlatformRuleV {
    PlatformRuleV { os_name: str_of(opt_key(key_of(j, "os"@), "name"@)) }
}

/// The rule list of a library entry: the elements of an array under
/// `rules`, if there is one; an absent or non-array `rules` means no list.
pub open spec fn spec_rules_of(j: JsonVal) -> Option<Seq<PlatformRuleV>> {
    match key_of(j, "rules"@) {
        Some(JsonVal::Arr(xs)) => Some(xs.map_values(|x: JsonVal| spec_rule_of(x))),
        _ => None,
    }
}

/// A library entry: `downloads.artifact.path` and `downloads.artifact.url`
/// must both be strings; the rule list is optional.
pub open spec fn spec_lib_of(j: JsonVal) -> Option<LibraryEntryV> {
    let artifact = opt_key(key_of(j, "downloads"@), "artifact"@);
    let path = str_of(opt_key(artifact, "path"@));
    let url = str_of(opt_key(artifact, "url"@));
    if path is Some && url is Some {
        Some(LibraryEntryV { path: path->Some_0, url: url->Some_0, rules: spec_rules_of(j) })
    } else {
        None
    }
}

/// All library entries, in order; one malformed entry spoils the document.
pub open spec fn spec_libs_of(xs: Seq<JsonVal>) -> Option<Seq<LibraryEntryV>>
    decreases xs.len(),
{
    if xs.len() == 0 {
        Some(Seq::empty())
    } else {
        match (spec_libs_of(xs.drop_last()), spec_lib_of(xs.last())) {
            (Some(front), Some(e)) => Some(front.push(e)),
            _ => None,
        }
    }
}

/// The version manifest: the client artifact URL at `downloads.client.url`,
/// the asset index reference at `assetIndex.id` and `assetIndex.url`, and
/// the library list under `libraries`.
pub open spec fn spec_manifest_of(j: JsonVal) -> Option<VersionManifestV> {
    let client_url = str_of(opt_key(opt_key(key_of(j, "downloads"@), "client"@), "url"@));
    let index_id = str_of(opt_key(key_of(j, "assetIndex"@), "id"@));
    let index_url = str_of(opt_key(key_of(j, "assetIndex"@), "url"@));
    match key_of(j, "libraries"@) {
        Some(JsonVal::Arr(xs)) => match spec_libs_of(xs) {
            Some(ls) => if client_url is Some && index_id is Some && index_url is Some {
                Some(
                    VersionManifestV {
                        client_url: client_url->Some_0,
                        index_id: index_id->Some_0,
                        index_url: index_url->Some_0,
                        libraries: ls,
                    },
                )
            } else {
                None
            },
            None => None,
        },
        _ => None,
    }
}

/// One asset entry: its `hash` must be a string of at least two characters
/// (the store needs the two-character prefix bucket) and its `size` a
/// number with a `u64` value.
pub open spec fn spec_asset_of(name: Seq<char>, j: JsonVal) -> Option<AssetObjectV> {
    let h = str_of(key_of(j, "hash"@));
    let sz = match key_of(j, "size"@) {
        Some(JsonVal::Num(n)) => n,
        _ => None,
    };
    if h matches Some(hs) && hs.len() >= 2 && sz is Some {
        Some(AssetObjectV { name, hash: h->Some_0, size: sz->Some_0 })
    } else {
        None
    }
}

/// All asset entries of an index's object map, in the map's own order.
pub open spec fn spec_assets_of(es: Seq<(Seq<char>, JsonVal)>) -> Option<Seq<AssetObjectV>>
    decreases es.len(),
{
    if es.len() == 0 {
        Some(Seq::empty())
    } else {
        match (spec_assets_of(es.drop_last()), spec_asset_of(es.last().0, es.last().1)) {
            (Some(front), Some(a)) => Some(front.push(a)),
            _ => None,
        }
    }
}

/// The asset index: its entries live in the object under `objects`.
pub open spec fn spec_index_of(j: JsonVal) -> Option<Seq<AssetObjectV>> {
    match key_of(j, "objects"@) {
        Some(JsonVal::Obj(es)) => spec_assets_of(es),
        _ => None,
    }
}

/// Every entry of a well-formed asset list carries a hash of at least two
/// characters: the schema admits no shorter one.
pub proof fn lemma_index_hashes(es: Seq<(Seq<char>, JsonVal)>)
    requires
        spec_assets_of(es) is Some,
    ensures
        forall|k: int|
            0 <= k < spec_assets_of(es)->Some_0.len() ==> (#[trigger] spec_assets_of(
                es,
            )->Some_0[k]).hash.len() >= 2,
    decreases es.len(),
{
    if es.len() > 0 {
        lemma_index_hashes(es.drop_last());
    }
}

/// The value under `key`, if `v` is an object with that key.
fn get_at<'a>(v: &'a serde_json::Value, key: &str) -> (r: Option<&'a serde_json::Value>)
    ensures
        r is Some <==> key_of(json_model(*v), key@) is Some,
        r matches Some(w) ==> json_model(*w) == key_of(json_model(*v), key@)->Some_0,
{
    json_get(v, key)
}

/// The string under `key`, if `v` is an object holding a string there.
fn get_str(v: &serde_json::Value, key: &str) -> (r: Option<String>)
    ensures
        r is Some <==> str_of(key_of(json_model(*v), key@)) is Some,
        r matches Some(s) ==> s@ == str_of(key_of(json_model(*v), key@))->Some_0,
{
    match get_at(v, key) {
        Some(w) => json_as_str(w),
        None => None,
    }
}

/// The elements of the array under `key`, if `v` is an object holding an
/// array there.
fn get_arr(v: &serde_json::Value, key: &str) -> (r: Option<Vec<serde_json::Value>>)
    ensures
        match key_of(json_model(*v), key@) {
            Some(JsonVal::Arr(xs)) => r matches Some(a) && a@.len() == xs.len() && (forall|i: int|
                0 <= i < xs.len() ==> json_model(#[trigger] a@[i]) == xs[i]),
            _ => r is None,
        },
{
    match get_at(v, key) {
        Some(w) => json_as_array(w),
        None => None,
    }
}

/// The entries of the object under `key`, if `v` is an object holding an
/// object there.
fn get_entries(v: &serde_json::Value, key: &str) -> (r: Option<Vec<(String, serde_json::Value)>>)
    ensures
        match key_of(json_model(*v), key@) {
            Some(JsonVal::Obj(es)) => r matches Some(a) && a@.len() == es.len() && (forall|i: int|
                0 <= i < es.len() ==> (#[trigger] a@[i]).0@ == es[i].0 && json_model(a@[i].1)
                    == es[i].1),
            _ => r is None,
        },
{
    match get_at(v, key) {
        Some(w) => json_object_entries(w),
        None => None,
    }
}

/// Reads one platform rule: its OS name at `os.name`, if it has one.
fn parse_rule(v: &serde_json::Value) -> (r: PlatformRule)
    ensures
        r@ == spec_rule_of(json_model(*v)),
{
    let os_name = match get_at(v, "os") {
        Some(os) => get_str(os, "name"),
        None => None,
    };
    PlatformRule { os_name }
}

/// Reads one library entry, or nothing where it is malformed.
fn parse_lib(v: &serde_json::Value) -> (r: Option<LibraryEntry>)
    ensures
        r is Some <==> spec_lib_of(json_model(*v)) is Some,
        r matches Some(e) ==> e@ == spec_lib_of(json_model(*v))->Some_0,
{
    let artifact = match get_at(v, "downloads") {
        Some(d) => get_at(d, "artifact"),
        None => None,
    };
    let (path, url) = match artifact {
        Some(a) => (get_str(a, "path"), get_str(a, "url")),
        None => (None, None),
    };
    match (path, url) {
        (Some(path), Some(url)) => {
            let rules = match get_arr(v, "rules") {
                Some(xs) => {
                    let rs = parse_rules(&xs);
                    proof {
                        let j = json_model(*v);
                        match key_of(j, "rules"@) {
                            Some(JsonVal::Arr(spec_xs)) => {
                                assert(rs@.map_values(|p: PlatformRule| p@) =~= spec_xs.map_values(
                                    |x: JsonVal| spec_rule_of(x),
                                ));
                            },
                            _ => {},
                        }
                    }
                    Some(rs)
                },
                None => None,
            };
            Some(LibraryEntry { path, url, rules })
        },
        _ => None,
    }
}

/// Reads a whole rule array, rule for rule.
fn parse_rules(xs: &Vec<serde_json::Value>) -> (r: Vec<PlatformRule>)
    ensures
        r@.map_values(|p: PlatformRule| p@) == xs@.map_values(
            |x: serde_json::Value| spec_rule_of(json_model(x)),
        ),
{
    let mut out: Vec<PlatformRule> = Vec::new();
    let mut i: usize = 0;
    while i < xs.len()
        invariant
            i <= xs.len(),
            out@.len() == i,
            forall|j: int| 0 <= j < i ==> (#[trigger] out@[j])@ == spec_rule_of(json_model(xs@[j])),
        decreases xs.len() - i,
    {
        let p = parse_rule(&xs[i]);
        out.push(p);
        i += 1;
    }
    proof {
        assert(out@.map_values(|p: PlatformRule| p@) =~= xs@.map_values(
            |x: serde_json::Value| spec_rule_of(json_model(x)),
        ));
    }
    out
}

/// One malformed element spoils the whole library list.
proof fn lemma_libs_of_bad(xs: Seq<JsonVal>, i: int)
    requires
        0 <= i < xs.len(),
        spec_lib_of(xs[i]) is None,
    ensures
        spec_libs_of(xs) is None,
    decreases xs.len(),
{
    if i == xs.len() - 1 {
    } else {
        lemma_libs_of_bad(xs.drop_last(), i);
    }
}

/// Reads the library list, or nothing where some entry is malformed.
fn parse_libs(xs: &Vec<serde_json::Value>) -> (r: Option<Vec<LibraryEntry>>)
    ensures
        ({
            let ms = xs@.map_values(|x: serde_json::Value| json_model(x));
            &&& (r is Some <==> spec_libs_of(ms) is Some)
            &&& (r matches Some(ls) ==> ls@.map_values(|e: LibraryEntry| e@) == spec_libs_of(
                ms,
            )->Some_0)
        }),
{
    let ghost ms = xs@.map_values(|x: serde_json::Value| json_model(x));
    let mut out: Vec<LibraryEntry> = Vec::new();
    let mut i: usize = 0;
    while i < xs.len()
        invariant
            i <= xs.len(),
            ms == xs@.map_values(|x: serde_json::Value| json_model(x)),
            spec_libs_of(ms.take(i as int)) == Some(out@.map_values(|e: LibraryEntry| e@)),
        decreases xs.len() - i,
    {
        let ghost pre = ms.take(i as int);
        let ghost pre1 = ms.take(i as int + 1);
        proof {
            assert(pre1.drop_last() =~= pre);
            assert(pre1.last() == ms[i as int]);
        }
        match parse_lib(&xs[i]) {
            Some(e) => {
                let ghost outv = out@.map_values(|x: LibraryEntry| x@);
                let ghost ev = e@;
                out.push(e);
                proof {
                    assert(out@.map_values(|x: LibraryEntry| x@) =~= outv.push(ev));
                }
            },
            None => {
                proof {
                    lemma_libs_of_bad(ms, i as int);
                }
                return None;
            },
        }
        i += 1;
    }
    proof {
        assert(ms.take(xs@.len() as int) =~= ms);
    }
    Some(out)
}

/// Reads a version manifest out of a parsed document, or reports exactly
/// how the document fails the schema: `ParseError`.
pub fn parse_manifest(v: &serde_json::Value) -> (r: Result<VersionManifest, FetchError>)
    ensures
        r is Ok <==> spec_manifest_of(json_model(*v)) is Some,
        r matches Ok(m) ==> m@ == spec_manifest_of(json_model(*v))->Some_0,
        r matches Err(e) ==> e == FetchError::ParseError,
{
    let client_url = match get_at(v, "downloads") {
        Some(d) => match get_at(d, "client") {
            Some(c) => get_str(c, "url"),
            None => None,
        },
        None => None,
    };
    let (index_id, index_url) = match get_at(v, "assetIndex") {
        Some(a) => (get_str(a, "id"), get_str(a, "url")),
        None => (None, None),
    };
    let libs_value = get_arr(v, "libraries");
    let ghost j = json_model(*v);
    let ghost spec_xs = match key_of(j, "libraries"@) {
        Some(JsonVal::Arr(s)) => s,
        _ => Seq::empty(),
    };
    match (client_url, index_id, index_url, libs_value) {
        (Some(client_url), Some(index_id), Some(index_url), Some(xs)) => {
            proof {
                assert(xs@.map_values(|x: serde_json::Value| json_model(x)) =~= spec_xs);
            }
            match parse_libs(&xs) {
                Some(libraries) => {
                    let m = VersionManifest { client_url, index_id, index_url, libraries };
                    proof {
                        assert(m@ == spec_manifest_of(j)->Some_0);
                    }
                    Ok(m)
                },
                None => Err(FetchError::ParseError),
            }
        },
        _ => Err(FetchError::ParseError),
    }
}

/// One malformed entry spoils the whole asset list.
proof fn lemma_assets_of_bad(es: Seq<(Seq<char>, JsonVal)>, i: int)
    requires
        0 <= i < es.len(),
        spec_asset_of(es[i].0, es[i].1) is None,
    ensures
        spec_assets_of(es) is None,
    decreases es.len(),
{
    if i == es.len() - 1 {
    } else {
        lemma_assets_of_bad(es.drop_last(), i);
    }
}

/// Reads one asset entry, or nothing where it is malformed.
fn parse_asset(name: String, v: &serde_json::Value) -> (r: Option<AssetObject>)
    ensures
        r is Some <==> spec_asset_of(name@, json_model(*v)) is Some,
        r matches Some(a) ==> a@ == spec_asset_of(name@, json_model(*v))->Some_0,
{
    let hash = get_str(v, "hash");
    let size = match get_at(v, "size") {
        Some(s) => json_as_u64(s),
        None => None,
    };
    proof {
        let j = json_model(*v);
        match key_of(j, "size"@) {
            Some(sj) => {
                if !(sj is Num) {
                    assert((match key_of(j, "size"@) {
                        Some(JsonVal::Num(n)) => n,
                        _ => None::<u64>,
                    }) is None);
                }
            },
            None => {},
        }
    }
    match (hash, size) {
        (Some(hash), Some(size)) => {
            if hash.as_str().unicode_len() >= 2 {
                Some(AssetObject { name, hash, size })
            } else {
                None
            }
        },
        _ => None,
    }
}

/// Reads the asset index out of a parsed document, or reports exactly how
/// the document fails the schema: `ParseError`.
pub fn parse_asset_index(v: &serde_json::Value) -> (r: Result<AssetIndex, FetchError>)
    ensures
        r is Ok <==> spec_index_of(json_model(*v)) is Some,
        r matches Ok(ix) ==> ix@ == spec_index_of(json_model(*v))->Some_0,
        r matches Err(e) ==> e == FetchError::ParseError,
{
    let entries = get_entries(v, "objects");
    let entries = match entries {
        Some(es) => es,
        None => {
            return Err(FetchError::ParseError);
        },
    };
    let ghost es = match key_of(json_model(*v), "objects"@) {
        Some(JsonVal::Obj(es)) => es,
        _ => Seq::empty(),
    };
    let mut out: Vec<AssetObject> = Vec::new();
    let mut i: usize = 0;
    while i < entries.len()
        invariant
            i <= entries.len(),
            key_of(json_model(*v), "objects"@) == Some(JsonVal::Obj(es)),
            entries@.len() == es.len(),
            forall|k: int|
                0 <= k < es.len() ==> (#[trigger] entries@[k]).0@ == es[k].0 && json_model(
                    entries@[k].1,
                ) == es[k].1,
            spec_assets_of(es.take(i as int)) == Some(out@.map_values(|a: AssetObject| a@)),
        decreases entries.len() - i,
    {
        let ghost pre = es.take(i as int);
        let ghost pre1 = es.take(i as int + 1);
        proof {
            assert(pre1.drop_last() =~= pre);
            assert(pre1.last() == es[i as int]);
        }
        let name = entries[i].0.clone();
        match parse_asset(name, &entries[i].1) {
            Some(a) => {
                let ghost outv = out@.map_values(|x: AssetObject| x@);
                let ghost av = a@;
                out.push(a);
                proof {
                    assert(out@.map_values(|x: AssetObject| x@) =~= outv.push(av));
                }
            },
            None => {
                proof {
                    lemma_assets_of_bad(es, i as int);
                    assert(spec_index_of(json_model(*v)) is None);
                }
                return Err(FetchError::ParseError);
            },
        }
        i += 1;
    }
    proof {
        assert(es.take(es.len() as int) =~= es);
    }
    Ok(AssetIndex { objects: out })
}

/// Parses a manifest document from its raw text: `ParseError` where the
/// text is not valid JSON or fails the manifest schema.
pub fn parse_manifest_text(s: &str) -> (r: Result<VersionManifest, FetchError>)
    ensures
        r is Ok <==> (json_of(s@) matches Some(j) && spec_manifest_of(j) is Some),
        r matches Ok(m) ==> m@ == spec_manifest_of(json_of(s@)->Some_0)->Some_0,
        r matches Err(e) ==> e == FetchError::ParseError,
{
    match json_parse(s) {
        Some(v) => parse_manifest(&v),
        None => Err(FetchError::ParseError),
    }
}

/// Parses an asset index document from its raw text: `ParseError` where the
/// text is not valid JSON or fails the index schema.
pub fn parse_asset_index_text(s: &str) -> (r: Result<AssetIndex, FetchError>)
    ensures
        r is Ok <==> (json_of(s@) matches Some(j) && spec_index_of(j) is Some),
        r matches Ok(ix) ==> ix@ == spec_index_of(json_of(s@)->Some_0)->Some_0,
        r matches Err(e) ==> e == FetchError::ParseError,
{
    match json_parse(s) {
        Some(v) => parse_asset_index(&v),
        None => Err(FetchError::ParseError),
    }
}

} // verus!
