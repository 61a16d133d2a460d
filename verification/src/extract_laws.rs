//! What holds of extraction for every post and every configuration.

use vstd::prelude::*;
use crate::config::{Config, ConfigView};
use crate::extract::{
    gated,
    identifiers_given,
    identifiers_of,
    identifiers_of_all,
    malformed,
    metadata_of,
    selected,
    MetadataError,
    MetadataView,
    TRACKED_CATEGORY,
};
use crate::message::{texts, EntryView, ResponseGetDiscussionsByBlogEntry};

verus! {

/// One of the four hashes of a post's metadata, in the order in which they are emitted.
pub enum HashField {
    Snaphash,
    Spritehash,
    Videohash,
    Video480hash,
}

impl MetadataView {
    /// The hash held in a field.
    pub open spec fn hash(self, field: HashField) -> Seq<char> {
        match field {
            HashField::Snaphash => self.snaphash,
            HashField::Spritehash => self.spritehash,
            HashField::Videohash => self.videohash,
            HashField::Video480hash => self.video480hash,
        }
    }
}

impl ConfigView {
    /// Whether a field's flag is set.
    pub open spec fn enabled(self, field: HashField) -> bool {
        match field {
            HashField::Snaphash => self.pin_snaphash,
            HashField::Spritehash => self.pin_spritehash,
            HashField::Videohash => self.pin_videohash,
            HashField::Video480hash => self.pin_video480hash,
        }
    }

    /// The same configuration with one field's flag cleared.
    pub open spec fn without(self, field: HashField) -> ConfigView {
        match field {
            HashField::Snaphash => ConfigView { pin_snaphash: false, ..self },
            HashField::Spritehash => ConfigView { pin_spritehash: false, ..self },
            HashField::Videohash => ConfigView { pin_videohash: false, ..self },
            HashField::Video480hash => ConfigView { pin_video480hash: false, ..self },
        }
    }
}

/// What a field contributes to the identifiers of accepted metadata.
pub open spec fn contribution(meta: MetadataView, config: ConfigView, field: HashField) -> Seq<
    Seq<char>,
> {
    gated(config.enabled(field), meta.hash(field))
}

/// What the fields emitted before `field` contribute.
pub open spec fn selected_before(meta: MetadataView, config: ConfigView, field: HashField) -> Seq<
    Seq<char>,
> {
    match field {
        HashField::Snaphash => Seq::empty(),
        HashField::Spritehash => contribution(meta, config, HashField::Snaphash),
        HashField::Videohash => contribution(meta, config, HashField::Snaphash) + contribution(
            meta,
            config,
            HashField::Spritehash,
        ),
        HashField::Video480hash => contribution(meta, config, HashField::Snaphash)
            + contribution(meta, config, HashField::Spritehash) + contribution(
            meta,
            config,
            HashField::Videohash,
        ),
    }
}

/// What the fields emitted after `field` contribute.
pub open spec fn selected_after(meta: MetadataView, config: ConfigView, field: HashField) -> Seq<
    Seq<char>,
> {
    match field {
        HashField::Snaphash => contribution(meta, config, HashField::Spritehash) + contribution(
            meta,
            config,
            HashField::Videohash,
        ) + contribution(meta, config, HashField::Video480hash),
        HashField::Spritehash => contribution(meta, config, HashField::Videohash) + contribution(
            meta,
            config,
            HashField::Video480hash,
        ),
        HashField::Videohash => contribution(meta, config, HashField::Video480hash),
        HashField::Video480hash => Seq::empty(),
    }
}

/// Extraction is repeatable: two runs of `extract` on equal posts under equal
/// configurations fail together or return the same identifiers.
pub proof fn lemma_extract_repeatable(
    post: ResponseGetDiscussionsByBlogEntry,
    config: Config,
    again_post: ResponseGetDiscussionsByBlogEntry,
    again_config: Config,
    first: Result<Vec<String>, MetadataError>,
    second: Result<Vec<String>, MetadataError>,
)
    requires
        post@ == again_post@,
        config@ == again_config@,
        first.is_err() == malformed(post@),
        first.is_ok() ==> texts(first.unwrap()@) == identifiers_of(post@, config@),
        second.is_err() == malformed(again_post@),
        second.is_ok() ==> texts(second.unwrap()@) == identifiers_of(again_post@, again_config@),
    ensures
        first.is_ok() == second.is_ok(),
        first.is_ok() ==> texts(first.unwrap()@) == texts(second.unwrap()@),
{
}

/// A post outside the tracked category yields no identifier and is never
/// reported as malformed, whatever its metadata holds.
pub proof fn lemma_other_category_yields_nothing(post: EntryView, config: ConfigView)
    requires
        post.category != TRACKED_CATEGORY@,
    ensures
        identifiers_of(post, config) == Seq::<Seq<char>>::empty(),
        !malformed(post),
        forall|parsed: Option<MetadataView>| #[trigger]
            identifiers_given(post.category, parsed, config) == Seq::<Seq<char>>::empty(),
{
}

/// Each flag gates exactly its own field: the identifiers of accepted
/// metadata are what the earlier fields contribute, then the field's own
/// contribution, then what the later fields contribute; with the flag cleared
/// the field's contribution is gone and the rest is the same.
pub proof fn lemma_flag_gates_its_field(meta: MetadataView, config: ConfigView, field: HashField)
    ensures
        selected(meta, config) == selected_before(meta, config, field) + contribution(
            meta,
            config,
            field,
        ) + selected_after(meta, config, field),
        selected(meta, config.without(field)) == selected_before(meta, config, field)
            + selected_after(meta, config, field),
        contribution(meta, config.without(field), field) == Seq::<Seq<char>>::empty(),
        forall|other: HashField|
            other != field ==> #[trigger] contribution(meta, config.without(field), other)
                == contribution(meta, config, other),
{
    let e = Seq::<Seq<char>>::empty();
    let a = contribution(meta, config, HashField::Snaphash);
    let b = contribution(meta, config, HashField::Spritehash);
    let c = contribution(meta, config, HashField::Videohash);
    let d = contribution(meta, config, HashField::Video480hash);
    assert(selected(meta, config) == a + b + c + d);
    assert(a + b + c + d =~= e + a + (b + c + d));
    assert(a + b + c + d =~= a + b + (c + d));
    assert(a + b + c + d =~= a + b + c + d + e);
    match field {
        HashField::Snaphash => {
            assert(selected(meta, config.without(field)) =~= e + (b + c + d));
        },
        HashField::Spritehash => {
            assert(selected(meta, config.without(field)) =~= a + (c + d));
        },
        HashField::Videohash => {
            assert(selected(meta, config.without(field)) =~= a + b + d);
        },
        HashField::Video480hash => {
            assert(selected(meta, config.without(field)) =~= a + b + c + e);
        },
    }
}

/// Clearing a flag changes no post's identifiers but by that field's
/// contribution: a post that yields identifiers yields the same ones without
/// it, and a post that yields none still yields none.
pub proof fn lemma_flag_gates_every_post(post: EntryView, config: ConfigView, field: HashField)
    ensures
        malformed(post) || post.category != TRACKED_CATEGORY@ ==> identifiers_of(
            post,
            config.without(field),
        ) == Seq::<Seq<char>>::empty(),
        !malformed(post) && post.category == TRACKED_CATEGORY@ ==> {
            let meta = metadata_of(post.json_metadata).unwrap();
            &&& identifiers_of(post, config) == selected_before(meta, config, field)
                + contribution(meta, config, field) + selected_after(meta, config, field)
            &&& identifiers_of(post, config.without(field)) == selected_before(
                meta,
                config,
                field,
            ) + selected_after(meta, config, field)
        },
{
    if !malformed(post) && post.category == TRACKED_CATEGORY@ {
        lemma_flag_gates_its_field(metadata_of(post.json_metadata).unwrap(), config, field);
    }
}

/// No identifier is empty, whatever the flags.
pub proof fn lemma_no_empty_identifier(meta: MetadataView, config: ConfigView)
    ensures
        forall|i: int|
            0 <= i < selected(meta, config).len() ==> (#[trigger] selected(meta, config)[i]).len()
                > 0,
{
}

/// The identifiers of two runs of posts put together are those of the first
/// run followed by those of the second.
pub proof fn lemma_identifiers_of_joined(
    first: Seq<EntryView>,
    second: Seq<EntryView>,
    config: ConfigView,
)
    ensures
        identifiers_of_all(first + second, config) == identifiers_of_all(first, config)
            + identifiers_of_all(second, config),
    decreases second.len(),
{
    if second.len() == 0 {
        assert(first + second =~= first);
        assert(identifiers_of_all(second, config) =~= Seq::empty());
        assert(identifiers_of_all(first, config) + Seq::empty() =~= identifiers_of_all(
            first,
            config,
        ));
    } else {
        let all = first + second;
        assert(all.drop_last() =~= first + second.drop_last());
        assert(all.last() == second.last());
        lemma_identifiers_of_joined(first, second.drop_last(), config);
        assert(identifiers_of_all(first, config) + identifiers_of_all(second.drop_last(), config)
            + identifiers_of(second.last(), config) =~= identifiers_of_all(first, config) + (
        identifiers_of_all(second.drop_last(), config) + identifiers_of(second.last(), config)));
    }
}

/// No identifier of a run of posts is empty.
pub proof fn lemma_no_empty_identifier_in_run(posts: Seq<EntryView>, config: ConfigView)
    ensures
        forall|i: int|
            0 <= i < identifiers_of_all(posts, config).len() ==> (#[trigger] identifiers_of_all(
                posts,
                config,
            )[i]).len() > 0,
    decreases posts.len(),
{
    if posts.len() > 0 {
        lemma_no_empty_identifier_in_run(posts.drop_last(), config);
        let last = posts.last();
        if last.category == TRACKED_CATEGORY@ && metadata_of(last.json_metadata).is_some() {
            lemma_no_empty_identifier(metadata_of(last.json_metadata).unwrap(), config);
        }
        let earlier = identifiers_of_all(posts.drop_last(), config);
        let latest = identifiers_of(last, config);
        assert forall|i: int| 0 <= i < identifiers_of_all(posts, config).len() implies (
        #[trigger] identifiers_of_all(posts, config)[i]).len() > 0 by {
            if i < earlier.len() {
                assert(identifiers_of_all(posts, config)[i] == earlier[i]);
            } else {
                assert(identifiers_of_all(posts, config)[i] == latest[i - earlier.len()]);
            }
        }
    }
}

/// A post whose metadata is rejected adds nothing and hides no other post:
/// the run yields what the posts before it and the posts after it yield.
pub proof fn lemma_rejected_post_is_isolated(
    before: Seq<EntryView>,
    rejected: EntryView,
    after: Seq<EntryView>,
    config: ConfigView,
)
    requires
        metadata_of(rejected.json_metadata).is_none(),
    ensures
        identifiers_of_all(before + seq![rejected] + after, config) == identifiers_of_all(
            before,
            config,
        ) + identifiers_of_all(after, config),
{
    lemma_identifiers_of_joined(before + seq![rejected], after, config);
    lemma_identifiers_of_joined(before, seq![rejected], config);
    let one = seq![rejected];
    assert(one.drop_last() =~= Seq::empty());
    assert(one.last() == rejected);
    assert(identifiers_of_all(one.drop_last(), config) =~= Seq::empty());
    assert(identifiers_of_all(one, config) =~= Seq::empty());
    assert(identifiers_of_all(before, config) + Seq::empty() =~= identifiers_of_all(
        before,
        config,
    ));
}

} // verus!
