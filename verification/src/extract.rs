//! Selection of the content identifiers that one post contributes.
//!
//! A post is in scope when its category is the tracked one. Its metadata is
//! then read as a JSON document of the shape
//! `{"video": {"info": {"snaphash", "spritehash"}, "content": {"videohash", "video480hash"}}}`,
//! all four members strings, and each string that is enabled and non-empty
//! becomes an identifier.

use vstd::prelude::*;
use crate::config::{Config, ConfigView};
use crate::json::{json_document, json_member, member, parse_document};
use crate::message::{texts, EntryView, ResponseGetDiscussionsByBlog, ResponseGetDiscussionsByBlogEntry};
use crate::reading::{read_text, text_member};

verus! {

/// The category whose posts are tracked.
pub const TRACKED_CATEGORY: &'static str = "dtube";

/// The hashes of the still images of a video.
#[derive(Debug, Clone)]
pub struct DtubeMetadataVideoInfo {
    pub snaphash: String,
    pub spritehash: String,
}

/// The hashes of the video itself, in full and in reduced resolution.
#[derive(Debug, Clone)]
pub struct DtubeMetadataVideoContent {
    pub videohash: String,
    pub video480hash: String,
}

/// What a post says of its video.
#[derive(Debug, Clone)]
pub struct DtubeMetadataVideo {
    pub info: DtubeMetadataVideoInfo,
    pub content: DtubeMetadataVideoContent,
}

/// The part of a post's metadata that names stored content.
#[derive(Debug, Clone)]
pub struct DtubeMetadata {
    pub video: DtubeMetadataVideo,
}

/// The four hashes of a `DtubeMetadata`.
pub struct MetadataView {
    pub snaphash: Seq<char>,
    pub spritehash: Seq<char>,
    pub videohash: Seq<char>,
    pub video480hash: Seq<char>,
}

impl View for DtubeMetadata {
    type V = MetadataView;

    open spec fn view(&self) -> MetadataView {
        MetadataView {
            snaphash: self.video.info.snaphash@,
            spritehash: self.video.info.spritehash@,
            videohash: self.video.content.videohash@,
            video480hash: self.video.content.video480hash@,
        }
    }
}

/// Why a metadata string was rejected.
#[derive(Debug)]
pub enum MetadataError {
    /// The string is no JSON document; the parser's own report is kept.
    Syntax(serde_json::Error),
    /// The document lacks one of the four hashes, or holds one that is no string.
    Schema,
}

/// The string member found by following `outer`, `inner` and `leaf` from the
/// root of a document.
pub open spec fn hash_at(
    document: serde_json::Value,
    outer: Seq<char>,
    inner: Seq<char>,
    leaf: Seq<char>,
) -> Option<Seq<char>> {
    match json_member(document, outer) {
        Some(video) => match json_member(video, inner) {
            Some(group) => text_member(group, leaf),
            None => None,
        },
        None => None,
    }
}

/// The four hashes of a parsed document, if all four are present as strings.
pub open spec fn metadata_in(document: serde_json::Value) -> Option<MetadataView> {
    let snaphash = hash_at(document, "video"@, "info"@, "snaphash"@);
    let spritehash = hash_at(document, "video"@, "info"@, "spritehash"@);
    let videohash = hash_at(document, "video"@, "content"@, "videohash"@);
    let video480hash = hash_at(document, "video"@, "content"@, "video480hash"@);
    if snaphash.is_some() && spritehash.is_some() && videohash.is_some()
        && video480hash.is_some() {
        Some(
            MetadataView {
                snaphash: snaphash.unwrap(),
                spritehash: spritehash.unwrap(),
                videohash: videohash.unwrap(),
                video480hash: video480hash.unwrap(),
            },
        )
    } else {
        None
    }
}

/// The four hashes that a metadata string holds, if it is accepted.
pub open spec fn metadata_of(raw: Seq<char>) -> Option<MetadataView> {
    match json_document(raw) {
        Some(document) => metadata_in(document),
        None => None,
    }
}

/// What one hash contributes: itself if its flag is set and it is not empty.
pub open spec fn gated(flag: bool, hash: Seq<char>) -> Seq<Seq<char>> {
    if flag && hash.len() > 0 {
        seq![hash]
    } else {
        Seq::empty()
    }
}

/// The identifiers of accepted metadata: the enabled, non-empty hashes in the
/// order snaphash, spritehash, videohash, video480hash.
pub open spec fn selected(meta: MetadataView, config: ConfigView) -> Seq<Seq<char>> {
    gated(config.pin_snaphash, meta.snaphash) + gated(config.pin_spritehash, meta.spritehash)
        + gated(config.pin_videohash, meta.videohash) + gated(
        config.pin_video480hash,
        meta.video480hash,
    )
}

/// The identifiers of a post whose metadata was read with the given outcome.
pub open spec fn identifiers_given(
    category: Seq<char>,
    parsed: Option<MetadataView>,
    config: ConfigView,
) -> Seq<Seq<char>> {
    if category != TRACKED_CATEGORY@ {
        Seq::empty()
    } else {
        match parsed {
            Some(meta) => selected(meta, config),
            None => Seq::empty(),
        }
    }
}

/// The identifiers that one post contributes.
pub open spec fn identifiers_of(post: EntryView, config: ConfigView) -> Seq<Seq<char>> {
    identifiers_given(post.category, metadata_of(post.json_metadata), config)
}

/// Whether a post is in scope and its metadata is rejected.
pub open spec fn malformed(post: EntryView) -> bool {
    post.category == TRACKED_CATEGORY@ && metadata_of(post.json_metadata).is_none()
}

/// The identifiers of a run of posts: those of each post, in the order of the posts.
pub open spec fn identifiers_of_all(posts: Seq<EntryView>, config: ConfigView) -> Seq<Seq<char>>
    decreases posts.len(),
{
    if posts.len() == 0 {
        Seq::empty()
    } else {
        identifiers_of_all(posts.drop_last(), config) + identifiers_of(posts.last(), config)
    }
}

/// The positions of the malformed posts of a run, ascending.
pub open spec fn malformed_in(posts: Seq<EntryView>) -> Seq<usize>
    decreases posts.len(),
{
    if posts.len() == 0 {
        Seq::empty()
    } else if malformed(posts.last()) {
        malformed_in(posts.drop_last()).push((posts.len() - 1) as usize)
    } else {
        malformed_in(posts.drop_last())
    }
}

/// `Some(())` for an enabled flag, `None` for a disabled one.
pub fn bool_to_option(b: bool) -> (r: Option<()>)
    ensures
        r.is_some() == b,
{
    if b {
        Some(())
    } else {
        None
    }
}

/// The string itself unless it is empty.
pub fn str_to_option(s: &str) -> (r: Option<&str>)
    ensures
        r.is_some() == (s@.len() > 0),
        r.is_some() ==> r.unwrap()@ == s@,
{
    if !s.is_empty() {
        Some(s)
    } else {
        None
    }
}

/// Appends what one hash contributes under its flag.
fn push_gated(identifiers: &mut Vec<String>, flag: bool, hash: &String)
    ensures
        texts(final(identifiers)@) == texts(old(identifiers)@) + gated(flag, hash@),
{
    let chosen = match bool_to_option(flag) {
        Some(_) => str_to_option(hash.as_str()),
        None => None,
    };
    match chosen {
        Some(hash) => {
            let owned = hash.to_owned();
            identifiers.push(owned);
            assert(texts(identifiers@) =~= texts(old(identifiers)@) + seq![owned@]);
        },
        None => {
            assert(texts(identifiers@) =~= texts(old(identifiers)@) + Seq::empty());
        },
    }
}

/// The identifiers that accepted metadata yields under a configuration.
pub fn select_identifiers(meta: &DtubeMetadata, config: &Config) -> (identifiers: Vec<String>)
    ensures
        texts(identifiers@) == selected(meta@, config@),
{
    let mut identifiers: Vec<String> = Vec::new();
    assert(texts(identifiers@) =~= Seq::empty());
    push_gated(&mut identifiers, config.pin_snaphash, &meta.video.info.snaphash);
    push_gated(&mut identifiers, config.pin_spritehash, &meta.video.info.spritehash);
    push_gated(&mut identifiers, config.pin_videohash, &meta.video.content.videohash);
    push_gated(&mut identifiers, config.pin_video480hash, &meta.video.content.video480hash);
    assert(texts(identifiers@) =~= selected(meta@, config@));
    identifiers
}

/// Follows three keys from the root of a document to a string member.
fn read_hash(document: &serde_json::Value, outer: &str, inner: &str, leaf: &str) -> (r: Option<
    String,
>)
    ensures
        r.is_some() == hash_at(*document, outer@, inner@, leaf@).is_some(),
        r.is_some() ==> r.unwrap()@ == hash_at(*document, outer@, inner@, leaf@).unwrap(),
{
    match member(document, outer) {
        Some(video) => match member(video, inner) {
            Some(group) => read_text(group, leaf),
            None => None,
        },
        None => None,
    }
}

/// Reads the four hashes out of a parsed document.
pub fn read_metadata(document: &serde_json::Value) -> (r: Option<DtubeMetadata>)
    ensures
        r.is_some() == metadata_in(*document).is_some(),
        r.is_some() ==> r.unwrap()@ == metadata_in(*document).unwrap(),
{
    let snaphash = read_hash(document, "video", "info", "snaphash");
    let spritehash = read_hash(document, "video", "info", "spritehash");
    let videohash = read_hash(document, "video", "content", "videohash");
    let video480hash = read_hash(document, "video", "content", "video480hash");
    match (snaphash, spritehash, videohash, video480hash) {
        (Some(snaphash), Some(spritehash), Some(videohash), Some(video480hash)) => Some(
            DtubeMetadata {
                video: DtubeMetadataVideo {
                    info: DtubeMetadataVideoInfo { snaphash, spritehash },
                    content: DtubeMetadataVideoContent { videohash, video480hash },
                },
            },
        ),
        _ => None,
    }
}

/// Reads a metadata string: it is accepted as a whole or rejected as a whole.
pub fn parse_metadata(raw: &str) -> (r: Result<DtubeMetadata, MetadataError>)
    ensures
        r.is_ok() == metadata_of(raw@).is_some(),
        r.is_ok() ==> r.unwrap()@ == metadata_of(raw@).unwrap(),
        r.is_err() ==> (r.unwrap_err() is Syntax <==> json_document(raw@).is_none()),
{
    match parse_document(raw) {
        Ok(document) => match read_metadata(&document) {
            Some(meta) => Ok(meta),
            None => Err(MetadataError::Schema),
        },
        Err(e) => Err(MetadataError::Syntax(e)),
    }
}

/// The identifiers of one post. A post outside the tracked category has
/// none; a post inside it whose metadata is rejected is reported.
pub fn extract(entry: &ResponseGetDiscussionsByBlogEntry, config: &Config) -> (r: Result<
    Vec<String>,
    MetadataError,
>)
    ensures
        r.is_err() == malformed(entry@),
        r.is_ok() ==> texts(r.unwrap()@) == identifiers_of(entry@, config@),
        r.is_err() ==> identifiers_of(entry@, config@) == Seq::<Seq<char>>::empty(),
        r.is_err() ==> (r.unwrap_err() is Syntax <==> json_document(
            entry.json_metadata@,
        ).is_none()),
{
    let wanted = TRACKED_CATEGORY.to_owned();
    if entry.category != wanted {
        let none: Vec<String> = Vec::new();
        assert(texts(none@) =~= Seq::empty());
        return Ok(none);
    }
    match parse_metadata(entry.json_metadata.as_str()) {
        Ok(meta) => Ok(select_identifiers(&meta, config)),
        Err(e) => Err(e),
    }
}

/// What a run of posts yields.
#[derive(Debug)]
pub struct Extracted {
    /// The identifiers of all posts, in the order of the posts.
    pub identifiers: Vec<String>,
    /// The positions of the posts whose metadata was rejected, with the reason.
    pub rejected: Vec<(usize, MetadataError)>,
}

/// The positions held by a list of rejections.
pub open spec fn positions(rejected: Seq<(usize, MetadataError)>) -> Seq<usize> {
    rejected.map_values(|r: (usize, MetadataError)| r.0)
}

/// Whether each rejection gives the reason for which its post was rejected:
/// `Syntax` where the metadata is no JSON document, `Schema` where it is one
/// of the wrong shape.
pub open spec fn reasons_hold(posts: Seq<EntryView>, rejected: Seq<(usize, MetadataError)>) -> bool {
    forall|k: int|
        0 <= k < rejected.len() ==> {
            let (at, reason) = #[trigger] rejected[k];
            &&& at < posts.len()
            &&& reason is Syntax <==> json_document(posts[at as int].json_metadata).is_none()
        }
}

/// The identifiers of all posts of one fetch. A post whose metadata is
/// rejected adds nothing and is listed; the posts after it are still read.
pub fn extract_all(posts: &ResponseGetDiscussionsByBlog, config: &Config) -> (r: Extracted)
    ensures
        texts(r.identifiers@) == identifiers_of_all(posts@, config@),
        positions(r.rejected@) == malformed_in(posts@),
        reasons_hold(posts@, r.rejected@),
{
    let mut identifiers: Vec<String> = Vec::new();
    let mut rejected: Vec<(usize, MetadataError)> = Vec::new();
    let mut i: usize = 0;
    assert(texts(identifiers@) =~= Seq::empty());
    assert(positions(rejected@) =~= Seq::empty());
    assert(posts@.take(0) =~= Seq::empty());
    while i < posts.0.len()
        invariant
            0 <= i <= posts.0.len(),
            posts@.len() == posts.0.len(),
            texts(identifiers@) == identifiers_of_all(posts@.take(i as int), config@),
            positions(rejected@) == malformed_in(posts@.take(i as int)),
            reasons_hold(posts@, rejected@),
        decreases posts.0.len() - i,
    {
        proof {
            let next = posts@.take(i + 1);
            assert(next.drop_last() =~= posts@.take(i as int));
            assert(next.last() == posts.0@[i as int]@);
        }
        let ghost before = texts(identifiers@);
        let ghost listed = positions(rejected@);
        match extract(&posts.0[i], config) {
            Ok(mut found) => {
                let ghost added = texts(found@);
                identifiers.append(&mut found);
                assert(texts(identifiers@) =~= before + added);
            },
            Err(e) => {
                let ghost earlier = rejected@;
                rejected.push((i, e));
                assert forall|k: int| 0 <= k < rejected@.len() implies {
                    let (at, reason) = #[trigger] rejected@[k];
                    &&& at < posts@.len()
                    &&& reason is Syntax <==> json_document(
                        posts@[at as int].json_metadata,
                    ).is_none()
                } by {
                    if k < earlier.len() {
                        assert(rejected@[k] == earlier[k]);
                    }
                }
                assert(positions(rejected@) =~= listed.push(i));
                assert(texts(identifiers@) =~= before + Seq::empty());
            },
        }
        i += 1;
    }
    assert(posts@.take(i as int) =~= posts@);
    Extracted { identifiers, rejected }
}

} // verus!
