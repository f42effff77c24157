use vstd::prelude::*;

use vstd::string::StringExecFns;

use crate::error::VaskError;
use crate::gemini::{
    entries_deep, items_deep, json_single, json_str, lemma_deep_array, lemma_deep_object,
    lemma_array_well_formed, lemma_lookup, lemma_object_well_formed, push_entry, push_item, single, Json, JsonV,
};
use crate::text::{chars_of, has_prefix_at, starts_with};

verus! {

/// The rest of `url` after its `https://` or `http://` scheme, if it has one.
pub open spec fn after_scheme(url: Seq<char>) -> Option<Seq<char>> {
    if starts_with(url, "https://"@) {
        Some(url.skip("https://"@.len() as int))
    } else if starts_with(url, "http://"@) {
        Some(url.skip("http://"@.len() as int))
    } else {
        None
    }
}

/// A character that ends the host part of a URL.
pub open spec fn ends_host(c: char) -> bool {
    c == '/' || c == '?' || c == '#'
}

/// The longest prefix of `s` that holds no `/`, `?` or `#`.
pub open spec fn host_prefix(s: Seq<char>) -> Seq<char>
    decreases s.len(),
{
    if s.len() == 0 || ends_host(s[0]) {
        Seq::empty()
    } else {
        seq![s[0]] + host_prefix(s.drop_first())
    }
}

/// `h` without a leading `www.`.
pub open spec fn strip_www(h: Seq<char>) -> Seq<char> {
    if starts_with(h, "www."@) {
        h.skip("www."@.len() as int)
    } else {
        h
    }
}

/// The host that a URL names, `www.` removed, when the URL has an http(s) scheme.
pub open spec fn url_host(url: Seq<char>) -> Option<Seq<char>> {
    match after_scheme(url) {
        Some(rest) => Some(strip_www(host_prefix(rest))),
        None => None,
    }
}

/// The hosts that serve YouTube videos.
pub open spec fn is_youtube_host(h: Seq<char>) -> bool {
    h == "youtube.com"@ || h == "m.youtube.com"@ || h == "youtu.be"@
}

/// `url` names a YouTube video.
pub open spec fn is_youtube_url(url: Seq<char>) -> bool {
    url_host(url) matches Some(h) && is_youtube_host(h)
}

/// `e` is the error that rejects `url`: it has no http(s) scheme, or its host is not
/// YouTube's. Each carries the URL, and the second also the host it found.
pub open spec fn rejects_url(e: VaskError, url: Seq<char>) -> bool {
    match e {
        VaskError::BadScheme { url: u } => after_scheme(url) is None && u@ == url,
        VaskError::NotYouTube { host, url: u } => url_host(url) == Some(host@) && !is_youtube_host(
            host@,
        ) && u@ == url,
        _ => false,
    }
}

/// The host part of `s` runs up to its first `/`, `?` or `#`, or to its end.
proof fn lemma_host_prefix(s: Seq<char>, k: int)
    requires
        0 <= k <= s.len(),
        forall|j: int| 0 <= j < k ==> !ends_host(s[j]),
        k == s.len() || ends_host(s[k]),
    ensures
        host_prefix(s) == s.take(k),
    decreases k,
{
    if k == 0 {
        assert(s.take(0) =~= Seq::<char>::empty());
    } else {
        let t = s.drop_first();
        assert forall|j: int| 0 <= j < k - 1 implies !ends_host(t[j]) by {
            assert(t[j] == s[j + 1]);
        }
        lemma_host_prefix(t, k - 1);
        assert(s.take(k) =~= seq![s[0]] + t.take(k - 1));
    }
}

/// Checks that `url` is an http(s) URL whose host, with any leading `www.` removed, is
/// `youtube.com`, `m.youtube.com` or `youtu.be`.
pub fn validate_youtube_url(url: &str) -> (r: Result<(), VaskError>)
    ensures
        r is Ok <==> is_youtube_url(url@),
        r matches Err(e) ==> rejects_url(e, url@),
{
    let cs = chars_of(url);
    let https = chars_of("https://");
    let http = chars_of("http://");
    let start: usize = if has_prefix_at(&cs, 0, &https) {
        https.len()
    } else if has_prefix_at(&cs, 0, &http) {
        http.len()
    } else {
        assert(cs@.skip(0) =~= cs@);
        return Err(VaskError::BadScheme { url: url.to_owned() });
    };
    assert(cs@.skip(0) =~= cs@);
    let ghost rest = cs@.skip(start as int);
    assert(after_scheme(url@) == Some(rest));
    let n: usize = cs.len();
    let mut end: usize = start;
    while end < n && !(cs[end] == '/' || cs[end] == '?' || cs[end] == '#')
        invariant
            n == cs@.len(),
            start <= end <= n,
            forall|j: int| start <= j < end ==> !ends_host(cs@[j]),
        decreases n - end,
    {
        end = end + 1;
    }
    proof {
        assert forall|j: int| 0 <= j < end - start implies !ends_host(rest[j]) by {
            assert(rest[j] == cs@[start + j]);
        }
        lemma_host_prefix(rest, end - start);
    }
    let ghost host_full = rest.take(end - start);
    assert(host_full =~= cs@.subrange(start as int, end as int));
    let www = chars_of("www.");
    let host_start: usize = if has_prefix_at(&cs, start, &www) && www.len() <= end - start {
        start + www.len()
    } else {
        start
    };
    proof {
        let h = cs@.skip(start as int);
        if starts_with(host_full, www@) {
            assert(h.take(www@.len() as int) =~= host_full.take(www@.len() as int));
        } else if starts_with(h, www@) && www@.len() <= end - start {
            assert(h.take(www@.len() as int) =~= host_full.take(www@.len() as int));
        }
    }
    let ghost host = cs@.subrange(host_start as int, end as int);
    assert(strip_www(host_full) =~= host);
    assert(url_host(url@) == Some(host));
    let hv = url.substring_char(host_start, end);
    assert(hv@ == host);
    if crate::text::same_text(hv, "youtube.com") || crate::text::same_text(hv, "m.youtube.com")
        || crate::text::same_text(hv, "youtu.be") {
        Ok(())
    } else {
        Err(VaskError::NotYouTube { host: hv.to_owned(), url: url.to_owned() })
    }
}

/// `http://` and `https://` are treated alike: the same rest after either scheme names
/// the same host, and is accepted or refused alike.
pub proof fn lemma_http_and_https_alike(rest: Seq<char>)
    ensures
        url_host("https://"@ + rest) == url_host("http://"@ + rest),
        is_youtube_url("https://"@ + rest) == is_youtube_url("http://"@ + rest),
{
    reveal_strlit("https://");
    reveal_strlit("http://");
    let a = "https://"@ + rest;
    let b = "http://"@ + rest;
    assert(a.take(8) =~= "https://"@);
    assert(a.skip(8) =~= rest);
    assert(b[4] == ':');
    if starts_with(b, "https://"@) {
        assert(b.take(8)[4] == b[4]);
        assert(false);
    }
    assert(b.take(7) =~= "http://"@);
    assert(b.skip(7) =~= rest);
}

/// A URL without an http(s) scheme has no host, however YouTube-like the rest looks.
pub proof fn lemma_scheme_required(url: Seq<char>)
    requires
        !starts_with(url, "https://"@),
        !starts_with(url, "http://"@),
    ensures
        url_host(url) is None,
        !is_youtube_url(url),
{
}

/// A URL is accepted exactly when it names a host and that host is `youtube.com`,
/// `m.youtube.com` or `youtu.be`; every other host is refused.
pub proof fn lemma_accepted_hosts(url: Seq<char>)
    ensures
        is_youtube_url(url) <==> (url_host(url) matches Some(h) && (h == "youtube.com"@ || h
            == "m.youtube.com"@ || h == "youtu.be"@)),
{
}

/// What `host_prefix` cuts off: a prefix without `/`, `?` or `#`, ended by one of them
/// or by the end.
proof fn lemma_host_prefix_parts(s: Seq<char>)
    ensures
        host_prefix(s).len() <= s.len(),
        s.take(host_prefix(s).len() as int) == host_prefix(s),
        forall|i: int| 0 <= i < host_prefix(s).len() ==> !ends_host(#[trigger] host_prefix(s)[i]),
        host_prefix(s).len() == s.len() || ends_host(s[host_prefix(s).len() as int]),
    decreases s.len(),
{
    if s.len() > 0 && !ends_host(s[0]) {
        let t = s.drop_first();
        lemma_host_prefix_parts(t);
        let h = host_prefix(s);
        assert(h == seq![s[0]] + host_prefix(t));
        assert(s.take(h.len() as int) =~= h);
        assert forall|i: int| 0 <= i < h.len() implies !ends_host(#[trigger] h[i]) by {
            if i > 0 {
                assert(h[i] == host_prefix(t)[i - 1]);
            }
        }
        if h.len() < s.len() {
            assert(s[h.len() as int] == t[host_prefix(t).len() as int]);
        }
    }
}

/// The host that a URL names: the URL is a scheme (`https://` or `http://`), then `www.`
/// when the host part begins with it, then the host, then nothing or a `/`, `?` or `#`
/// and the rest. The host holds none of `/`, `?`, `#`. A URL with neither scheme names
/// no host.
pub proof fn lemma_url_host_parts(url: Seq<char>)
    ensures
        url_host(url) is Some <==> ((url.len() >= 8 && url.take(8) == "https://"@) || (url.len()
            >= 7 && url.take(7) == "http://"@)),
        url_host(url) matches Some(h) ==> exists|pre: Seq<char>, tail: Seq<char>|
            #![trigger pre + h + tail]
            {
                &&& url == pre + h + tail
                &&& pre == "https://"@ || pre == "http://"@ || pre == "https://www."@ || pre
                    == "http://www."@
                &&& forall|i: int| 0 <= i < h.len() ==> h[i] != '/' && h[i] != '?' && h[i] != '#'
                &&& tail.len() == 0 || tail[0] == '/' || tail[0] == '?' || tail[0] == '#'
                &&& (pre == "https://"@ || pre == "http://"@) ==> !(h.len() >= 4 && h.take(4)
                    == "www."@)
            },
{
    reveal_strlit("https://");
    reveal_strlit("http://");
    reveal_strlit("www.");
    reveal_strlit("https://www.");
    reveal_strlit("http://www.");
    if let Some(h) = url_host(url) {
        let scheme = if starts_with(url, "https://"@) {
            "https://"@
        } else {
            "http://"@
        };
        let rest = url.skip(scheme.len() as int);
        assert(after_scheme(url) == Some(rest));
        assert(url =~= scheme + rest);
        let hf = host_prefix(rest);
        lemma_host_prefix_parts(rest);
        let k = hf.len() as int;
        let tail = rest.skip(k);
        assert(rest =~= hf + tail);
        assert(tail.len() > 0 ==> tail[0] == rest[k]);
        if starts_with(hf, "www."@) {
            let pre = scheme + "www."@;
            assert(hf =~= "www."@ + h);
            assert(url =~= pre + h + tail);
            assert(pre =~= "https://www."@ || pre =~= "http://www."@);
            assert forall|i: int| 0 <= i < h.len() implies h[i] != '/' && h[i] != '?' && h[i] != '#' by {
                assert(h[i] == hf[i + 4]);
                assert(!ends_host(hf[i + 4]));
            }
            assert(pre != "https://"@ && pre != "http://"@);
        } else {
            assert(h == hf);
            assert(url =~= scheme + h + tail);
            assert forall|i: int| 0 <= i < h.len() implies h[i] != '/' && h[i] != '?' && h[i] != '#' by {
                assert(!ends_host(h[i]));
            }
        }
    }
}

/// The instruction that comes before the question in a request to answer it.
pub open spec fn ask_prompt(question: Seq<char>) -> Seq<char> {
    "Answer this question about the video. Be concise and specific, and cite timestamps where useful.\n\nQuestion: "@
        + question
}

/// The prompt of a request to summarize a video.
pub const SUMMARIZE_PROMPT: &'static str =
    "Summarize this video. Provide a one-paragraph overview, a list of key points, and a list of topics covered.";

/// The prompt of a request to split a video into chapters.
pub const CHAPTERS_PROMPT: &'static str =
    "Break this video into logical chapters. For each chapter provide start_seconds, end_seconds, a short title, and a one-sentence summary.";

/// A schema value that names only a JSON type.
pub open spec fn typed(t: Seq<char>) -> JsonV {
    single("type"@, JsonV::Str(t))
}

/// A schema value for an array of items of type `t`.
pub open spec fn array_of(t: Seq<char>) -> JsonV {
    JsonV::Object(seq![("type"@, JsonV::Str("array"@)), ("items"@, typed(t))])
}

/// The response schema that shapes a summary: an overview, key points and topics.
pub open spec fn summary_schema_value() -> JsonV {
    JsonV::Object(
        seq![
            ("type"@, JsonV::Str("object"@)),
            (
                "properties"@,
                JsonV::Object(
                    seq![
                        ("overview"@, typed("string"@)),
                        ("key_points"@, array_of("string"@)),
                        ("topics"@, array_of("string"@)),
                    ],
                ),
            ),
            (
                "required"@,
                JsonV::Array(
                    seq![
                        JsonV::Str("overview"@),
                        JsonV::Str("key_points"@),
                        JsonV::Str("topics"@),
                    ],
                ),
            ),
        ],
    )
}

/// The response schema that shapes a list of chapters: start and end in seconds, a title
/// and a summary each.
pub open spec fn chapters_schema_value() -> JsonV {
    JsonV::Object(
        seq![
            ("type"@, JsonV::Str("array"@)),
            (
                "items"@,
                JsonV::Object(
                    seq![
                        ("type"@, JsonV::Str("object"@)),
                        (
                            "properties"@,
                            JsonV::Object(
                                seq![
                                    ("start_seconds"@, typed("integer"@)),
                                    ("end_seconds"@, typed("integer"@)),
                                    ("title"@, typed("string"@)),
                                    ("summary"@, typed("string"@)),
                                ],
                            ),
                        ),
                        (
                            "required"@,
                            JsonV::Array(
                                seq![
                                    JsonV::Str("start_seconds"@),
                                    JsonV::Str("end_seconds"@),
                                    JsonV::Str("title"@),
                                    JsonV::Str("summary"@),
                                ],
                            ),
                        ),
                    ],
                ),
            ),
        ],
    )
}

/// The schema value for one JSON type, and for an array of them, are well formed.
proof fn lemma_typed_well_formed(t: Seq<char>)
    ensures
        typed(t).well_formed(),
        array_of(t).well_formed(),
{
    reveal_strlit("type");
    reveal_strlit("items");
    lemma_object_well_formed(seq![("type"@, JsonV::Str(t))]);
    lemma_object_well_formed(seq![("type"@, JsonV::Str("array"@)), ("items"@, typed(t))]);
}

/// Both response schemas are well formed.
pub proof fn lemma_schemas_well_formed()
    ensures
        summary_schema_value().well_formed(),
        chapters_schema_value().well_formed(),
{
    reveal_strlit("type");
    reveal_strlit("properties");
    reveal_strlit("required");
    reveal_strlit("items");
    reveal_strlit("overview");
    reveal_strlit("key_points");
    reveal_strlit("topics");
    reveal_strlit("start_seconds");
    reveal_strlit("end_seconds");
    reveal_strlit("title");
    reveal_strlit("summary");
    lemma_typed_well_formed("string"@);
    lemma_typed_well_formed("integer"@);
    lemma_object_well_formed(
        seq![
            ("overview"@, typed("string"@)),
            ("key_points"@, array_of("string"@)),
            ("topics"@, array_of("string"@)),
        ],
    );
    lemma_array_well_formed(
        seq![JsonV::Str("overview"@), JsonV::Str("key_points"@), JsonV::Str("topics"@)],
    );
    lemma_object_well_formed(summary_schema_value()->Object_0);
    lemma_object_well_formed(
        seq![
            ("start_seconds"@, typed("integer"@)),
            ("end_seconds"@, typed("integer"@)),
            ("title"@, typed("string"@)),
            ("summary"@, typed("string"@)),
        ],
    );
    lemma_array_well_formed(
        seq![
            JsonV::Str("start_seconds"@),
            JsonV::Str("end_seconds"@),
            JsonV::Str("title"@),
            JsonV::Str("summary"@),
        ],
    );
    let item = chapters_schema_value()->Object_0[1].1;
    lemma_object_well_formed(item->Object_0);
    lemma_object_well_formed(chapters_schema_value()->Object_0);
}

/// The summary schema has the shape of a summary: an object whose `overview` is a
/// string and whose `key_points` and `topics` are arrays of strings, all three required.
pub proof fn lemma_summary_schema_shape()
    ensures
        summary_schema_value().field("type"@) == Some(JsonV::Str("object"@)),
        summary_schema_value().field("properties"@) matches Some(props) && {
            &&& props.field("overview"@) == Some(
                JsonV::Object(seq![("type"@, JsonV::Str("string"@))]),
            )
            &&& props.field("key_points"@) == Some(
                JsonV::Object(
                    seq![
                        ("type"@, JsonV::Str("array"@)),
                        ("items"@, JsonV::Object(seq![("type"@, JsonV::Str("string"@))])),
                    ],
                ),
            )
            &&& props.field("topics"@) == Some(
                JsonV::Object(
                    seq![
                        ("type"@, JsonV::Str("array"@)),
                        ("items"@, JsonV::Object(seq![("type"@, JsonV::Str("string"@))])),
                    ],
                ),
            )
        },
        summary_schema_value().field("required"@) == Some(
            JsonV::Array(
                seq![JsonV::Str("overview"@), JsonV::Str("key_points"@), JsonV::Str("topics"@)],
            ),
        ),
{
    reveal_strlit("type");
    reveal_strlit("properties");
    reveal_strlit("required");
    reveal_strlit("overview");
    reveal_strlit("key_points");
    reveal_strlit("topics");
    let top = summary_schema_value()->Object_0;
    lemma_lookup(top, "type"@, 0);
    lemma_lookup(top, "properties"@, 1);
    lemma_lookup(top, "required"@, 2);
    let props = top[1].1->Object_0;
    lemma_lookup(props, "overview"@, 0);
    lemma_lookup(props, "key_points"@, 1);
    lemma_lookup(props, "topics"@, 2);
}

/// The chapters schema has the shape of a list of chapters: an array of objects whose
/// `start_seconds` and `end_seconds` are integers and whose `title` and `summary` are
/// strings, all four required.
pub proof fn lemma_chapters_schema_shape()
    ensures
        chapters_schema_value().field("type"@) == Some(JsonV::Str("array"@)),
        chapters_schema_value().field("items"@) matches Some(item) && {
            &&& item.field("type"@) == Some(JsonV::Str("object"@))
            &&& item.field("properties"@) matches Some(props) && {
                &&& props.field("start_seconds"@) == Some(
                    JsonV::Object(seq![("type"@, JsonV::Str("integer"@))]),
                )
                &&& props.field("end_seconds"@) == Some(
                    JsonV::Object(seq![("type"@, JsonV::Str("integer"@))]),
                )
                &&& props.field("title"@) == Some(
                    JsonV::Object(seq![("type"@, JsonV::Str("string"@))]),
                )
                &&& props.field("summary"@) == Some(
                    JsonV::Object(seq![("type"@, JsonV::Str("string"@))]),
                )
            }
            &&& item.field("required"@) == Some(
                JsonV::Array(
                    seq![
                        JsonV::Str("start_seconds"@),
                        JsonV::Str("end_seconds"@),
                        JsonV::Str("title"@),
                        JsonV::Str("summary"@),
                    ],
                ),
            )
        },
{
    reveal_strlit("type");
    reveal_strlit("items");
    reveal_strlit("properties");
    reveal_strlit("required");
    reveal_strlit("start_seconds");
    reveal_strlit("end_seconds");
    reveal_strlit("title");
    reveal_strlit("summary");
    let top = chapters_schema_value()->Object_0;
    lemma_lookup(top, "type"@, 0);
    lemma_lookup(top, "items"@, 1);
    let item = top[1].1->Object_0;
    lemma_lookup(item, "type"@, 0);
    lemma_lookup(item, "properties"@, 1);
    lemma_lookup(item, "required"@, 2);
    let props = item[1].1->Object_0;
    lemma_lookup(props, "start_seconds"@, 0);
    lemma_lookup(props, "end_seconds"@, 1);
    lemma_lookup(props, "title"@, 2);
    lemma_lookup(props, "summary"@, 3);
}

/// The schema value `{"type": t}`.
fn typed_json(t: &str) -> (r: Json)
    ensures
        r.deep() == typed(t@),
{
    json_single("type", json_str(t))
}

/// The schema value for an array of items of type `t`.
fn array_of_json(t: &str) -> (r: Json)
    ensures
        r.deep() == array_of(t@),
{
    let mut e: Vec<(String, Json)> = Vec::new();
    push_entry(&mut e, "type", json_str("array"));
    push_entry(&mut e, "items", typed_json(t));
    proof {
        lemma_deep_object(e);
        assert(entries_deep(e@) =~= seq![("type"@, JsonV::Str("array"@)), ("items"@, typed(t@))]);
    }
    Json::Object(e)
}

/// An array of JSON strings, one for each name.
fn names_json(a: &str, b: &str, c: &str, d: Option<&str>) -> (r: Json)
    ensures
        r.deep() == JsonV::Array(
            match d {
                Some(d) => seq![JsonV::Str(a@), JsonV::Str(b@), JsonV::Str(c@), JsonV::Str(d@)],
                None => seq![JsonV::Str(a@), JsonV::Str(b@), JsonV::Str(c@)],
            },
        ),
{
    let mut items: Vec<Json> = Vec::new();
    push_item(&mut items, json_str(a));
    push_item(&mut items, json_str(b));
    push_item(&mut items, json_str(c));
    match d {
        Some(d) => {
            push_item(&mut items, json_str(d));
        },
        None => {},
    }
    proof {
        lemma_deep_array(items);
        match d {
            Some(d) => {
                assert(items_deep(items@) =~= seq![
                    JsonV::Str(a@),
                    JsonV::Str(b@),
                    JsonV::Str(c@),
                    JsonV::Str(d@),
                ]);
            },
            None => {
                assert(items_deep(items@) =~= seq![
                    JsonV::Str(a@),
                    JsonV::Str(b@),
                    JsonV::Str(c@),
                ]);
            },
        }
    }
    Json::Array(items)
}

/// The response schema that shapes a summary.
pub fn summary_schema() -> (r: Json)
    ensures
        r.deep() == summary_schema_value(),
        r.deep().well_formed(),
{
    proof {
        lemma_schemas_well_formed();
    }
    let mut props: Vec<(String, Json)> = Vec::new();
    push_entry(&mut props, "overview", typed_json("string"));
    push_entry(&mut props, "key_points", array_of_json("string"));
    push_entry(&mut props, "topics", array_of_json("string"));
    let ghost pv = entries_deep(props@);
    proof {
        lemma_deep_object(props);
    }
    let mut e: Vec<(String, Json)> = Vec::new();
    push_entry(&mut e, "type", json_str("object"));
    push_entry(&mut e, "properties", Json::Object(props));
    push_entry(&mut e, "required", names_json("overview", "key_points", "topics", None));
    proof {
        lemma_deep_object(e);
        assert(pv =~= seq![
            ("overview"@, typed("string"@)),
            ("key_points"@, array_of("string"@)),
            ("topics"@, array_of("string"@)),
        ]);
        assert(entries_deep(e@) =~= summary_schema_value()->Object_0);
    }
    Json::Object(e)
}

/// The response schema that shapes a list of chapters.
pub fn chapters_schema() -> (r: Json)
    ensures
        r.deep() == chapters_schema_value(),
        r.deep().well_formed(),
{
    proof {
        lemma_schemas_well_formed();
    }
    let mut props: Vec<(String, Json)> = Vec::new();
    push_entry(&mut props, "start_seconds", typed_json("integer"));
    push_entry(&mut props, "end_seconds", typed_json("integer"));
    push_entry(&mut props, "title", typed_json("string"));
    push_entry(&mut props, "summary", typed_json("string"));
    let ghost pv = entries_deep(props@);
    proof {
        lemma_deep_object(props);
    }
    let mut item: Vec<(String, Json)> = Vec::new();
    push_entry(&mut item, "type", json_str("object"));
    push_entry(&mut item, "properties", Json::Object(props));
    push_entry(
        &mut item,
        "required",
        names_json("start_seconds", "end_seconds", "title", Some("summary")),
    );
    let ghost iv = entries_deep(item@);
    proof {
        lemma_deep_object(item);
    }
    let mut e: Vec<(String, Json)> = Vec::new();
    push_entry(&mut e, "type", json_str("array"));
    push_entry(&mut e, "items", Json::Object(item));
    proof {
        lemma_deep_object(e);
        assert(pv =~= seq![
            ("start_seconds"@, typed("integer"@)),
            ("end_seconds"@, typed("integer"@)),
            ("title"@, typed("string"@)),
            ("summary"@, typed("string"@)),
        ]);
        let items_v = chapters_schema_value()->Object_0[1].1;
        assert(iv =~= items_v->Object_0);
        assert(entries_deep(e@) =~= chapters_schema_value()->Object_0);
    }
    Json::Object(e)
}

/// What to ask Gemini about a video: the prompt, the video's URL, and the schema that
/// shapes a structured answer, if one is wanted.
#[derive(Debug)]
pub struct GenerateRequest {
    pub prompt: String,
    pub video_url: String,
    pub schema: Option<Json>,
}

/// The request that asks a free-form question about a video. The URL is checked first:
/// a URL that is not YouTube's gets no request.
pub fn ask_request(url: &str, question: &str) -> (r: Result<GenerateRequest, VaskError>)
    ensures
        r is Ok <==> is_youtube_url(url@),
        r matches Err(e) ==> rejects_url(e, url@),
        r matches Ok(q) ==> q.prompt@ == ask_prompt(question@) && q.video_url@ == url@
            && q.schema is None,
{
    validate_youtube_url(url)?;
    let prompt = String::from_str(
        "Answer this question about the video. Be concise and specific, and cite timestamps where useful.\n\nQuestion: ",
    ).concat(question);
    Ok(GenerateRequest { prompt, video_url: String::from_str(url), schema: None })
}

/// The request that asks for a structured summary of a video.
pub fn summarize_request(url: &str) -> (r: Result<GenerateRequest, VaskError>)
    ensures
        r is Ok <==> is_youtube_url(url@),
        r matches Err(e) ==> rejects_url(e, url@),
        r matches Ok(q) ==> {
            &&& q.prompt@ == SUMMARIZE_PROMPT@
            &&& q.video_url@ == url@
            &&& q.schema matches Some(s) && s.deep() == summary_schema_value()
        },
{
    validate_youtube_url(url)?;
    Ok(
        GenerateRequest {
            prompt: String::from_str(SUMMARIZE_PROMPT),
            video_url: String::from_str(url),
            schema: Some(summary_schema()),
        },
    )
}

/// The request that asks for a video's chapters.
pub fn chapters_request(url: &str) -> (r: Result<GenerateRequest, VaskError>)
    ensures
        r is Ok <==> is_youtube_url(url@),
        r matches Err(e) ==> rejects_url(e, url@),
        r matches Ok(q) ==> {
            &&& q.prompt@ == CHAPTERS_PROMPT@
            &&& q.video_url@ == url@
            &&& q.schema matches Some(s) && s.deep() == chapters_schema_value()
        },
{
    validate_youtube_url(url)?;
    Ok(
        GenerateRequest {
            prompt: String::from_str(CHAPTERS_PROMPT),
            video_url: String::from_str(url),
            schema: Some(chapters_schema()),
        },
    )
}

} // verus!
