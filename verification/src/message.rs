//! The messages exchanged with the feed service.

use vstd::prelude::*;
use vstd::string::StringExecFns;
use crate::decimal::{decimal, push_decimal};
use crate::json::{items, json_items, json_string_literal, quote};
use crate::reading::{integer_member, read_integer, read_text, text_member};

verus! {

/// The texts of a sequence of strings, in order.
pub open spec fn texts(strings: Seq<String>) -> Seq<Seq<char>> {
    strings.map_values(|s: String| s@)
}

/// Asks for the most recent `limit` posts of the feed named `tag`.
#[derive(Debug, Clone)]
pub struct RequestGetDiscussionsByBlog {
    pub limit: i32,
    pub tag: String,
}

/// What a `RequestGetDiscussionsByBlog` holds.
pub struct RequestView {
    pub limit: int,
    pub tag: Seq<char>,
}

impl View for RequestGetDiscussionsByBlog {
    type V = RequestView;

    open spec fn view(&self) -> RequestView {
        RequestView { limit: self.limit as int, tag: self.tag@ }
    }
}

/// One post of a feed, as the feed service returns it.
#[derive(Debug, Clone)]
pub struct ResponseGetDiscussionsByBlogEntry {
    pub id: i32,
    pub author: String,
    pub permlink: String,
    pub body: String,
    pub json_metadata: String,
    pub category: String,
}

/// What a post holds.
pub struct EntryView {
    pub id: int,
    pub author: Seq<char>,
    pub permlink: Seq<char>,
    pub body: Seq<char>,
    pub json_metadata: Seq<char>,
    pub category: Seq<char>,
}

impl View for ResponseGetDiscussionsByBlogEntry {
    type V = EntryView;

    open spec fn view(&self) -> EntryView {
        EntryView {
            id: self.id as int,
            author: self.author@,
            permlink: self.permlink@,
            body: self.body@,
            json_metadata: self.json_metadata@,
            category: self.category@,
        }
    }
}

/// The posts that one fetch returned, most recent first as the service sent them.
#[derive(Debug, Clone)]
pub struct ResponseGetDiscussionsByBlog(pub Vec<ResponseGetDiscussionsByBlogEntry>);

impl View for ResponseGetDiscussionsByBlog {
    type V = Seq<EntryView>;

    open spec fn view(&self) -> Seq<EntryView> {
        self.0@.map_values(|e: ResponseGetDiscussionsByBlogEntry| e@)
    }
}

/// What comes back for a request: it can be read from a JSON value.
pub trait Response: View + Sized {
    /// What a JSON value is read as, if it is accepted.
    spec fn reading(value: serde_json::Value) -> Option<Self::V>;

    /// Reads a response from a JSON value, as a whole or not at all.
    fn decode(value: &serde_json::Value) -> (r: Option<Self>)
        ensures
            r.is_some() == Self::reading(*value).is_some(),
            r.is_some() ==> r.unwrap()@ == Self::reading(*value).unwrap(),
    ;
}

/// What can be asked of the service: a method of one of its interfaces, with
/// parameters that can be written as JSON.
pub trait Request {
    /// What the service answers.
    type Res: Response;

    /// The name of the interface.
    spec fn api_name() -> Seq<char>;

    /// The name of the method.
    spec fn method_name() -> Seq<char>;

    /// The parameters as JSON text.
    spec fn params_text(&self) -> Seq<char>;

    /// The name of the interface.
    fn api() -> (r: &'static str)
        ensures
            r@ == Self::api_name(),
    ;

    /// The name of the method.
    fn method() -> (r: &'static str)
        ensures
            r@ == Self::method_name(),
    ;

    /// Writes the parameters as JSON text. It fails only where the JSON
    /// writer does.
    fn encode(&self) -> (r: Result<String, serde_json::Error>)
        ensures
            r.is_ok() ==> r.unwrap()@ == self.params_text(),
    ;
}

/// What a list of requests holds.
pub open spec fn request_views(requests: Seq<RequestGetDiscussionsByBlog>) -> Seq<RequestView> {
    requests.map_values(|r: RequestGetDiscussionsByBlog| r@)
}

/// A request as a JSON object, given its limit and its tag as a JSON string literal.
pub open spec fn object_text(limit: int, quoted_tag: Seq<char>) -> Seq<char> {
    "{\"limit\":"@ + decimal(limit) + ",\"tag\":"@ + quoted_tag + "}"@
}

/// One request as a JSON object, where its tag can be written.
pub open spec fn request_text(request: RequestView) -> Seq<char> {
    object_text(request.limit, json_string_literal(request.tag).unwrap())
}

/// Whether the tag of every request can be written as a JSON string literal.
pub open spec fn tags_can_be_written(requests: Seq<RequestView>) -> bool {
    forall|i: int|
        0 <= i < requests.len() ==> json_string_literal((#[trigger] requests[i]).tag).is_some()
}

/// Appends a request as a JSON object, given its limit and its tag as a
/// JSON string literal.
pub fn push_request(out: &mut String, limit: i32, quoted_tag: &str)
    ensures
        final(out)@ == old(out)@ + object_text(limit as int, quoted_tag@),
{
    out.append("{\"limit\":");
    push_decimal(out, limit);
    out.append(",\"tag\":");
    out.append(quoted_tag);
    out.append("}");
    assert(out@ =~= old(out)@ + object_text(limit as int, quoted_tag@));
}

/// Requests as JSON objects with a comma after each but the last.
pub open spec fn requests_text(requests: Seq<RequestView>) -> Seq<char>
    decreases requests.len(),
{
    if requests.len() == 0 {
        Seq::empty()
    } else if requests.len() == 1 {
        request_text(requests[0])
    } else {
        requests_text(requests.drop_last()) + ","@ + request_text(requests.last())
    }
}

impl Request for Vec<RequestGetDiscussionsByBlog> {
    type Res = ResponseGetDiscussionsByBlog;

    open spec fn api_name() -> Seq<char> {
        "database_api"@
    }

    open spec fn method_name() -> Seq<char> {
        "get_discussions_by_blog"@
    }

    open spec fn params_text(&self) -> Seq<char> {
        "["@ + requests_text(request_views(self@)) + "]"@
    }

    fn api() -> (r: &'static str) {
        "database_api"
    }

    fn method() -> (r: &'static str) {
        "get_discussions_by_blog"
    }

    /// The requests as a JSON array of objects, each with its `limit` and
    /// its `tag`. The tags are written in order, and the first that cannot
    /// be written ends the call with the writer's error; a list without
    /// requests is always written.
    fn encode(&self) -> (r: Result<String, serde_json::Error>)
        ensures
            r.is_ok() == tags_can_be_written(request_views(self@)),
    {
        let mut out = "[".to_owned();
        let ghost all = request_views(self@);
        let mut i: usize = 0;
        assert(all.take(0) =~= Seq::empty());
        assert(out@ =~= "["@ + requests_text(all.take(0)));
        while i < self.len()
            invariant
                0 <= i <= self.len(),
                all == request_views(self@),
                out@ == "["@ + requests_text(all.take(i as int)),
                tags_can_be_written(all.take(i as int)),
            decreases self.len() - i,
        {
            let ghost before = out@;
            let ghost done = all.take(i as int);
            let ghost next = all.take(i + 1);
            assert(next.drop_last() =~= done);
            assert(next.last() == self@[i as int]@);
            if i > 0 {
                out.append(",");
            }
            match quote(self[i].tag.as_str()) {
                Ok(quoted) => {
                    push_request(&mut out, self[i].limit, quoted.as_str());
                },
                Err(e) => {
                    assert(json_string_literal(all[i as int].tag).is_none());
                    return Err(e);
                },
            }
            proof {
                assert forall|k: int| 0 <= k < next.len() implies json_string_literal(
                    (#[trigger] next[k]).tag,
                ).is_some() by {
                    if k < i {
                        assert(next[k] == done[k]);
                    }
                }
                let one = request_text(next.last());
                if i == 0 {
                    assert(done =~= Seq::empty());
                    assert(requests_text(done) =~= Seq::empty());
                    assert(next[0] == next.last());
                    assert(out@ =~= "["@ + one);
                } else {
                    assert(out@ =~= "["@ + (requests_text(done) + ","@ + one));
                }
            }
            i += 1;
        }
        assert(all.take(i as int) =~= all);
        out.append("]");
        Ok(out)
    }
}

/// The post that a JSON value is read as: an object with an integer `id`
/// within `i32` and the strings `author`, `permlink`, `body`, `json_metadata`
/// and `category`; other members are passed over.
pub open spec fn entry_in(value: serde_json::Value) -> Option<EntryView> {
    let id = integer_member(value, "id"@);
    let author = text_member(value, "author"@);
    let permlink = text_member(value, "permlink"@);
    let body = text_member(value, "body"@);
    let json_metadata = text_member(value, "json_metadata"@);
    let category = text_member(value, "category"@);
    if id.is_some() && i32::MIN <= id.unwrap() <= i32::MAX && author.is_some()
        && permlink.is_some() && body.is_some() && json_metadata.is_some()
        && category.is_some() {
        Some(
            EntryView {
                id: id.unwrap() as int,
                author: author.unwrap(),
                permlink: permlink.unwrap(),
                body: body.unwrap(),
                json_metadata: json_metadata.unwrap(),
                category: category.unwrap(),
            },
        )
    } else {
        None
    }
}

/// The posts that a run of JSON values is read as, if every one is a post.
pub open spec fn entries_in(values: Seq<serde_json::Value>) -> Option<Seq<EntryView>>
    decreases values.len(),
{
    if values.len() == 0 {
        Some(Seq::empty())
    } else {
        match (entries_in(values.drop_last()), entry_in(values.last())) {
            (Some(earlier), Some(last)) => Some(earlier.push(last)),
            _ => None,
        }
    }
}

/// A run of values holds no posts once one of its values is no post.
pub proof fn lemma_one_bad_entry_spoils_all(values: Seq<serde_json::Value>, at: int)
    requires
        0 <= at < values.len(),
        entry_in(values[at]).is_none(),
    ensures
        entries_in(values).is_none(),
    decreases values.len(),
{
    if at < values.len() - 1 {
        lemma_one_bad_entry_spoils_all(values.drop_last(), at);
    }
}

impl ResponseGetDiscussionsByBlogEntry {
    /// Reads one post from a JSON value.
    pub fn decode(value: &serde_json::Value) -> (r: Option<ResponseGetDiscussionsByBlogEntry>)
        ensures
            r.is_some() == entry_in(*value).is_some(),
            r.is_some() ==> r.unwrap()@ == entry_in(*value).unwrap(),
    {
        let id = read_integer(value, "id");
        let author = read_text(value, "author");
        let permlink = read_text(value, "permlink");
        let body = read_text(value, "body");
        let json_metadata = read_text(value, "json_metadata");
        let category = read_text(value, "category");
        match (id, author, permlink, body, json_metadata, category) {
            (
                Some(id),
                Some(author),
                Some(permlink),
                Some(body),
                Some(json_metadata),
                Some(category),
            ) => ResponseGetDiscussionsByBlogEntry::from_parts(
                id,
                author,
                permlink,
                body,
                json_metadata,
                category,
            ),
            _ => None,
        }
    }

    /// A post made of its members as they were read; there is none with an
    /// `id` outside `i32`.
    pub fn from_parts(
        id: i64,
        author: String,
        permlink: String,
        body: String,
        json_metadata: String,
        category: String,
    ) -> (r: Option<ResponseGetDiscussionsByBlogEntry>)
        ensures
            r.is_some() == (i32::MIN <= id <= i32::MAX),
            r.is_some() ==> r.unwrap()@ == (EntryView {
                id: id as int,
                author: author@,
                permlink: permlink@,
                body: body@,
                json_metadata: json_metadata@,
                category: category@,
            }),
    {
        if id < -2147483648 || id > 2147483647 {
            None
        } else {
            Some(
                ResponseGetDiscussionsByBlogEntry {
                    id: id as i32,
                    author,
                    permlink,
                    body,
                    json_metadata,
                    category,
                },
            )
        }
    }
}

impl Response for ResponseGetDiscussionsByBlog {
    open spec fn reading(value: serde_json::Value) -> Option<Seq<EntryView>> {
        match json_items(value) {
            Some(values) => entries_in(values),
            None => None,
        }
    }

    /// Reads the posts of a feed from a JSON array; one value in it that is
    /// no post rejects the whole.
    fn decode(value: &serde_json::Value) -> (r: Option<Self>) {
        let values = match items(value) {
            Some(values) => values,
            None => {
                return None;
            },
        };
        let mut posts: Vec<ResponseGetDiscussionsByBlogEntry> = Vec::new();
        let mut i: usize = 0;
        assert(values@.take(0) =~= Seq::empty());
        assert(ResponseGetDiscussionsByBlog(posts)@ =~= Seq::empty());
        while i < values.len()
            invariant
                0 <= i <= values.len(),
                json_items(*value) == Some(values@),
                entries_in(values@.take(i as int)) == Some(ResponseGetDiscussionsByBlog(posts)@),
            decreases values.len() - i,
        {
            let ghost read = ResponseGetDiscussionsByBlog(posts)@;
            match ResponseGetDiscussionsByBlogEntry::decode(&values[i]) {
                Some(post) => {
                    posts.push(post);
                    proof {
                        let next = values@.take(i + 1);
                        assert(next.drop_last() =~= values@.take(i as int));
                        assert(next.last() == values@[i as int]);
                        assert(ResponseGetDiscussionsByBlog(posts)@ =~= read.push(post@));
                    }
                },
                None => {
                    proof {
                        lemma_one_bad_entry_spoils_all(values@, i as int);
                    }
                    return None;
                },
            }
            i += 1;
        }
        assert(values@.take(i as int) =~= values@);
        Some(ResponseGetDiscussionsByBlog(posts))
    }
}

} // verus!
