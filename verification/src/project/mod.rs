//! A Nucleus project: its root directory, configuration and collections,
//! and the directories derived from the root. Paths are the bytes the
//! operating system stores, so any root directory can be represented.

pub mod collection;
pub mod config;

use vstd::prelude::*;
use vstd::utf8::encode_utf8;
use crate::path::{
    join, join_path, is_absolute, parent, parent_path, lemma_join_join, lemma_utf8_concat, SEPARATOR,
};
use crate::project::collection::Collection;
use crate::project::config::NucleusConfig;

verus! {

/// A loaded project.
#[derive(Clone, Debug)]
pub struct NucleusProject {
    pub root: Vec<u8>,
    pub config: NucleusConfig,
    pub collections: Vec<Collection>,
}

/// The configuration file of the project rooted at `root`; its presence
/// marks a directory as a project root.
pub open spec fn config_file_path(root: Seq<u8>) -> Seq<u8> {
    join_path(root, encode_utf8("nucleus/nucleus.toml"@))
}

/// The directory whose `*.toml` files define the collections.
pub open spec fn collection_sources_path(root: Seq<u8>) -> Seq<u8> {
    join_path(root, encode_utf8("nucleus/collections"@))
}

pub open spec fn nucleus_dir_path(root: Seq<u8>) -> Seq<u8> {
    join_path(root, encode_utf8("nucleus"@))
}

pub open spec fn collections_dir_path(root: Seq<u8>) -> Seq<u8> {
    join_path(root, encode_utf8("collections"@))
}

pub open spec fn content_dir_path(root: Seq<u8>) -> Seq<u8> {
    join_path(root, encode_utf8("content"@))
}

pub open spec fn content_dir_for_path(root: Seq<u8>, collection: Seq<char>) -> Seq<u8> {
    join_path(content_dir_path(root), encode_utf8(collection))
}

pub open spec fn media_dir_path(root: Seq<u8>) -> Seq<u8> {
    join_path(content_dir_path(root), encode_utf8("media"@))
}

pub open spec fn frontend_dir_path(root: Seq<u8>) -> Seq<u8> {
    join_path(root, encode_utf8("frontend"@))
}

pub open spec fn db_file_path(root: Seq<u8>) -> Seq<u8> {
    join_path(nucleus_dir_path(root), encode_utf8("nucleus.db"@))
}

pub open spec fn out_dir_path(root: Seq<u8>, out_dir: Seq<char>) -> Seq<u8> {
    join_path(root, encode_utf8(out_dir))
}

/// The configuration file of the project rooted at `root`.
pub fn config_file(root: &[u8]) -> (p: Vec<u8>)
    ensures
        p@ == config_file_path(root@),
{
    join(root, "nucleus/nucleus.toml".as_bytes())
}

/// The directory holding the collection definitions of the project rooted at `root`.
pub fn collection_sources_dir(root: &[u8]) -> (p: Vec<u8>)
    ensures
        p@ == collection_sources_path(root@),
{
    join(root, "nucleus/collections".as_bytes())
}

impl NucleusProject {
    pub fn nucleus_dir(&self) -> (p: Vec<u8>)
        ensures
            p@ == nucleus_dir_path(self.root@),
    {
        join(self.root.as_slice(), "nucleus".as_bytes())
    }

    pub fn collections_dir(&self) -> (p: Vec<u8>)
        ensures
            p@ == collections_dir_path(self.root@),
    {
        join(self.root.as_slice(), "collections".as_bytes())
    }

    pub fn content_dir(&self) -> (p: Vec<u8>)
        ensures
            p@ == content_dir_path(self.root@),
    {
        join(self.root.as_slice(), "content".as_bytes())
    }

    pub fn content_dir_for(&self, collection: &str) -> (p: Vec<u8>)
        ensures
            p@ == content_dir_for_path(self.root@, collection@),
    {
        let c = self.content_dir();
        join(c.as_slice(), collection.as_bytes())
    }

    pub fn media_dir(&self) -> (p: Vec<u8>)
        ensures
            p@ == media_dir_path(self.root@),
    {
        let c = self.content_dir();
        join(c.as_slice(), "media".as_bytes())
    }

    pub fn frontend_dir(&self) -> (p: Vec<u8>)
        ensures
            p@ == frontend_dir_path(self.root@),
    {
        join(self.root.as_slice(), "frontend".as_bytes())
    }

    pub fn db_path(&self) -> (p: Vec<u8>)
        ensures
            p@ == db_file_path(self.root@),
    {
        let n = self.nucleus_dir();
        join(n.as_slice(), "nucleus.db".as_bytes())
    }

    pub fn out_dir(&self) -> (p: Vec<u8>)
        ensures
            p@ == out_dir_path(self.root@, self.config.build.out_dir@),
    {
        join(self.root.as_slice(), self.config.build.out_dir.as_str().as_bytes())
    }
}

/// What the search for a project root does after looking at one directory.
#[derive(Debug)]
pub enum RootSearch {
    /// The directory holds the configuration file: it is the root.
    Found(Vec<u8>),
    /// It does not: look at this parent directory next.
    Ascend(Vec<u8>),
    /// It does not, and it has no parent: there is no project root.
    NotFound,
}

fn copy_bytes(b: &[u8]) -> (v: Vec<u8>)
    ensures
        v@ == b@,
{
    let mut v: Vec<u8> = Vec::new();
    let mut k: usize = 0;
    while k < b.len()
        invariant
            k <= b@.len(),
            v@ == b@.take(k as int),
        decreases b@.len() - k,
    {
        v.push(b[k]);
        assert(b@.take(k as int).push(b@[k as int]) =~= b@.take(k + 1));
        k = k + 1;
    }
    assert(b@.take(b@.len() as int) =~= b@);
    v
}

/// One step of the search for the project root, which starts at the
/// working directory and walks up: `current` is the directory being looked
/// at and `marker_exists` whether `config_file(current)` exists.
pub fn root_search_step(current: &[u8], marker_exists: bool) -> (step: RootSearch)
    ensures
        marker_exists ==> (step matches RootSearch::Found(d) && d@ == current@),
        !marker_exists ==> match parent_path(current@) {
            Some(q) => step matches RootSearch::Ascend(d) && d@ == q,
            None => step is NotFound,
        },
{
    if marker_exists {
        RootSearch::Found(copy_bytes(current))
    } else {
        match parent(current) {
            Some(d) => RootSearch::Ascend(d),
            None => RootSearch::NotFound,
        }
    }
}

proof fn lemma_ascii_name(s: Seq<char>)
    requires
        vstd::utf8::is_ascii_chars(s),
        s.len() > 0,
        s[0] != '/',
        s.last() != '/',
    ensures
        encode_utf8(s).len() == s.len(),
        encode_utf8(s)[0] != SEPARATOR,
        encode_utf8(s).last() != SEPARATOR,
        !is_absolute(encode_utf8(s)),
{
    vstd::utf8::is_ascii_chars_encode_utf8(s);
    assert(encode_utf8(s)[0] == s[0] as u8);
    assert(encode_utf8(s)[s.len() - 1] == s[s.len() - 1] as u8);
    vstd::utf8::is_ascii_chars_nat_bound(s);
}

proof fn lemma_slash_bytes()
    ensures
        encode_utf8(seq!['/']) == seq![SEPARATOR],
{
    vstd::utf8::is_ascii_chars_encode_utf8(seq!['/']);
    assert(encode_utf8(seq!['/']) =~= seq![SEPARATOR]);
}

/// The configuration file sits in the project's `nucleus` directory, beside
/// the database: it is `nucleus_dir/nucleus.toml`; the collection
/// definitions are in `nucleus_dir/collections`.
pub proof fn lemma_config_file_in_nucleus_dir(root: Seq<u8>)
    ensures
        config_file_path(root) == join_path(nucleus_dir_path(root), encode_utf8("nucleus.toml"@)),
        collection_sources_path(root) == join_path(
            nucleus_dir_path(root),
            encode_utf8("collections"@),
        ),
{
    reveal_strlit("nucleus/nucleus.toml");
    reveal_strlit("nucleus/collections");
    reveal_strlit("nucleus");
    reveal_strlit("nucleus.toml");
    reveal_strlit("collections");
    let n = "nucleus"@;
    lemma_ascii_name(n);
    lemma_ascii_name("nucleus.toml"@);
    lemma_ascii_name("collections"@);
    lemma_slash_bytes();
    assert(n + seq!['/'] + "nucleus.toml"@ =~= "nucleus/nucleus.toml"@);
    assert(n + seq!['/'] + "collections"@ =~= "nucleus/collections"@);
    lemma_utf8_concat(n, seq!['/']);
    lemma_utf8_concat(n + seq!['/'], "nucleus.toml"@);
    lemma_utf8_concat(n + seq!['/'], "collections"@);
    lemma_join_join(root, encode_utf8(n), encode_utf8("nucleus.toml"@));
    lemma_join_join(root, encode_utf8(n), encode_utf8("collections"@));
}

/// The media directory is the content directory of a collection named `media`.
pub proof fn lemma_media_dir_is_content_dir_for_media(root: Seq<u8>)
    ensures
        media_dir_path(root) == content_dir_for_path(root, "media"@),
{
}

/// An absolute output directory is used as it stands; a relative one lies
/// under the root.
pub proof fn lemma_out_dir(root: Seq<u8>, out_dir: Seq<char>)
    ensures
        is_absolute(encode_utf8(out_dir)) ==> out_dir_path(root, out_dir) == encode_utf8(out_dir),
        !is_absolute(encode_utf8(out_dir)) && root.len() > 0 && root.last() != SEPARATOR
            ==> out_dir_path(root, out_dir) == root + seq![SEPARATOR] + encode_utf8(out_dir),
{
}

} // verus!
