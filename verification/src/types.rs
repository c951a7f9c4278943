//! Data model of the fetch pipeline: the version manifest, the asset index,
//! library entries with their platform rules, and download tasks.

use vstd::prelude::*;

verus! {

/// Ghost model of a platform rule: the target-OS name it names, if any.
///
/// Only the OS name of a rule is consulted by the filter; a rule without a
/// readable OS name never matches any platform.
pub ghost struct PlatformRuleV {
    pub os_name: Option<Seq<char>>,
}

/// A conditional clause restricting a library entry to a target platform,
/// keyed on the target-OS name.
#[derive(Debug)]
pub struct PlatformRule {
    pub os_name: Option<String>,
}

impl View for PlatformRule {
    type V = PlatformRuleV;

    open spec fn view(&self) -> PlatformRuleV {
        PlatformRuleV {
            os_name: match self.os_name {
                Some(s) => Some(s@),
                None => None,
            },
        }
    }
}

/// Ghost model of a library entry.
pub ghost struct LibraryEntryV {
    pub path: Seq<char>,
    pub url: Seq<char>,
    pub rules: Option<Seq<PlatformRuleV>>,
}

/// One library dependency of the release: where its artifact lives remotely,
/// the relative path it is stored under, and an optional ordered rule list.
#[derive(Debug)]
pub struct LibraryEntry {
    pub path: String,
    pub url: String,
    pub rules: Option<Vec<PlatformRule>>,
}

impl View for LibraryEntry {
    type V = LibraryEntryV;

    open spec fn view(&self) -> LibraryEntryV {
        LibraryEntryV {
            path: self.path@,
            url: self.url@,
            rules: match self.rules {
                Some(rs) => Some(rs@.map_values(|r: PlatformRule| r@)),
                None => None,
            },
        }
    }
}

/// Ghost model of one entry of the asset index.
pub ghost struct AssetObjectV {
    pub name: Seq<char>,
    pub hash: Seq<char>,
    pub size: u64,
}

/// One entry of the asset index: a logical name, the content hash that
/// addresses the object, and its size in bytes. The name is not path-safe
/// and is never used as a storage key; only the hash is.
#[derive(Debug)]
pub struct AssetObject {
    pub name: String,
    pub hash: String,
    pub size: u64,
}

impl View for AssetObject {
    type V = AssetObjectV;

    open spec fn view(&self) -> AssetObjectV {
        AssetObjectV { name: self.name@, hash: self.hash@, size: self.size }
    }
}

/// The asset index: an ordered list of named content objects.
#[derive(Debug)]
pub struct AssetIndex {
    pub objects: Vec<AssetObject>,
}

impl View for AssetIndex {
    type V = Seq<AssetObjectV>;

    open spec fn view(&self) -> Seq<AssetObjectV> {
        self.objects@.map_values(|o: AssetObject| o@)
    }
}

/// Ghost model of the version manifest.
pub ghost struct VersionManifestV {
    pub client_url: Seq<char>,
    pub index_id: Seq<char>,
    pub index_url: Seq<char>,
    pub libraries: Seq<LibraryEntryV>,
}

/// A release's manifest: where the client artifact and the asset index live,
/// and the ordered list of library dependencies. Immutable once fetched.
#[derive(Debug)]
pub struct VersionManifest {
    pub client_url: String,
    pub index_id: String,
    pub index_url: String,
    pub libraries: Vec<LibraryEntry>,
}

impl View for VersionManifest {
    type V = VersionManifestV;

    open spec fn view(&self) -> VersionManifestV {
        VersionManifestV {
            client_url: self.client_url@,
            index_id: self.index_id@,
            index_url: self.index_url@,
            libraries: self.libraries@.map_values(|e: LibraryEntry| e@),
        }
    }
}

/// Ghost model of a download task.
pub ghost struct DownloadTaskV {
    pub source_url: Seq<char>,
    pub dest_path: Seq<char>,
}

/// One unit of download work: fetch `source_url` and materialize the body at
/// `dest_path` (relative to the instance root).
#[derive(Debug)]
pub struct DownloadTask {
    pub source_url: String,
    pub dest_path: String,
}

impl View for DownloadTask {
    type V = DownloadTaskV;

    open spec fn view(&self) -> DownloadTaskV {
        DownloadTaskV { source_url: self.source_url@, dest_path: self.dest_path@ }
    }
}

impl DownloadTask {
    /// An exact copy of the task.
    pub fn duplicate(&self) -> (r: DownloadTask)
        ensures
            r == *self,
    {
        DownloadTask { source_url: self.source_url.clone(), dest_path: self.dest_path.clone() }
    }
}

} // verus!
