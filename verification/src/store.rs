//! Content-addressed disk layout.
//!
//! Every persisted resource lives under one base directory, injected at
//! construction: fetched image blobs under `blobs/`, search-result documents
//! under `queries/`, and the single recency document at a fixed path.  File
//! names are the hex SHA-256 digest of the resource's canonical identifier,
//! so equal identifiers always address the same file and distinct identifiers
//! collide only if the hash does.  The store computes paths; reading and
//! writing the files is its caller's side of the interface.

use vstd::prelude::*;
use vstd::string::StringExecFns;

use crate::emote::WebmEmote;
use crate::hashing::digest_hex;
use crate::hashing::sha256_hex;

verus! {

/// The directory of image blobs under the base directory.
pub open spec fn blobs_dir_of(base: Seq<char>) -> Seq<char> {
    base + "/blobs"@
}

/// The directory of search-result documents under the base directory.
pub open spec fn queries_dir_of(base: Seq<char>) -> Seq<char> {
    base + "/queries"@
}

/// The on-disk path of the image blob fetched from `url`.
pub open spec fn blob_path_of(base: Seq<char>, url: Seq<char>) -> Seq<char> {
    base + "/blobs/"@ + sha256_hex(url) + ".webp"@
}

/// The on-disk path of the result document of the normalized query `q`.
pub open spec fn query_doc_path_of(base: Seq<char>, q: Seq<char>) -> Seq<char> {
    base + "/queries/"@ + sha256_hex(q) + ".json"@
}

/// The on-disk path of the recency document.
pub open spec fn recent_path_of(base: Seq<char>) -> Seq<char> {
    base + "/recent.json"@
}

/// The disk side of the cache: path derivation under one base directory.
pub struct DiskStore {
    /// The base directory all persisted state lives under.
    pub base: String,
}

impl DiskStore {
    /// A store rooted at the given base directory.
    pub fn new(base: String) -> (s: Self)
        ensures
            s.base == base,
    {
        DiskStore { base }
    }

    /// The directory image blobs are written to.
    pub fn blobs_dir(&self) -> (r: String)
        ensures
            r@ == blobs_dir_of(self.base@),
    {
        let mut s = self.base.clone();
        s.append("/blobs");
        s
    }

    /// The directory search-result documents are written to.
    pub fn queries_dir(&self) -> (r: String)
        ensures
            r@ == queries_dir_of(self.base@),
    {
        let mut s = self.base.clone();
        s.append("/queries");
        s
    }

    /// The path of the blob fetched from `url`.
    pub fn blob_path(&self, url: &String) -> (r: String)
        ensures
            r@ == blob_path_of(self.base@, url@),
    {
        let h = digest_hex(url);
        let mut s = self.base.clone();
        s.append("/blobs/");
        s.append(h.as_str());
        s.append(".webp");
        s
    }

    /// The path of the result document of the normalized query `q`.
    pub fn query_doc_path(&self, q: &String) -> (r: String)
        ensures
            r@ == query_doc_path_of(self.base@, q@),
    {
        let h = digest_hex(q);
        let mut s = self.base.clone();
        s.append("/queries/");
        s.append(h.as_str());
        s.append(".json");
        s
    }

    /// The path of the recency document.
    pub fn recent_path(&self) -> (r: String)
        ensures
            r@ == recent_path_of(self.base@),
    {
        let mut s = self.base.clone();
        s.append("/recent.json");
        s
    }
}

impl WebmEmote {
    /// The on-disk path of this library's cached copy of the image at `url`,
    /// under the given base directory.
    pub fn path(base: &String, url: &String) -> (r: String)
        ensures
            r@ == blob_path_of(base@, url@),
    {
        let store = DiskStore { base: base.clone() };
        store.blob_path(url)
    }
}

} // verus!
