use vstd::prelude::*;
use vstd::string::StringExecFns;

use crate::error::VaskError;
use crate::text::same_text;

verus! {

/// A JSON value, as the Gemini API sends and receives it. An object holds its entries in
/// order; a number holds its decimal text.
#[derive(Debug, PartialEq)]
pub enum Json {
    Null,
    Bool(bool),
    Number(String),
    Str(String),
    Array(Vec<Json>),
    Object(Vec<(String, Json)>),
}

/// The mathematical value of a [`Json`].
pub enum JsonV {
    Null,
    Bool(bool),
    Number(Seq<char>),
    Str(Seq<char>),
    Array(Seq<JsonV>),
    Object(Seq<(Seq<char>, JsonV)>),
}

impl Json {
    /// The mathematical value of this JSON value.
    pub open spec fn deep(self) -> JsonV
        decreases self,
    {
        match self {
            Json::Null => JsonV::Null,
            Json::Bool(b) => JsonV::Bool(b),
            Json::Number(n) => JsonV::Number(n@),
            Json::Str(s) => JsonV::Str(s@),
            Json::Array(a) => JsonV::Array(
                Seq::new(
                    a.len() as nat,
                    |i: int|
                        if 0 <= i < a.len() {
                            proof {
                                assert(decreases_to!(a => a@));
                                assert(decreases_to!(a@ => a@[i]));
                            }
                            a@[i].deep()
                        } else {
                            JsonV::Null
                        },
                ),
            ),
            Json::Object(o) => JsonV::Object(
                Seq::new(
                    o.len() as nat,
                    |i: int|
                        if 0 <= i < o.len() {
                            proof {
                                assert(decreases_to!(o => o@));
                                assert(decreases_to!(o@ => o@[i]));
                                assert(decreases_to!(o@[i] => o@[i].1));
                            }
                            (o@[i].0@, o@[i].1.deep())
                        } else {
                            (Seq::empty(), JsonV::Null)
                        },
                ),
            ),
        }
    }
}

/// The value of the first entry named `key`.
pub open spec fn entry_value(entries: Seq<(Seq<char>, JsonV)>, key: Seq<char>) -> Option<JsonV>
    decreases entries.len(),
{
    if entries.len() == 0 {
        None
    } else if entries[0].0 == key {
        Some(entries[0].1)
    } else {
        entry_value(entries.drop_first(), key)
    }
}

impl JsonV {
    /// The field `key` of an object; nothing for any other value.
    pub open spec fn field(self, key: Seq<char>) -> Option<JsonV> {
        match self {
            JsonV::Object(o) => entry_value(o, key),
            _ => None,
        }
    }

    /// The element at `i` of an array; nothing for any other value or index.
    pub open spec fn item(self, i: int) -> Option<JsonV> {
        match self {
            JsonV::Array(a) => if 0 <= i < a.len() {
                Some(a[i])
            } else {
                None
            },
            _ => None,
        }
    }
}

/// No two entries of an object share a name.
pub open spec fn distinct_names(entries: Seq<(Seq<char>, JsonV)>) -> bool {
    forall|i: int, k: int| 0 <= i < k < entries.len() ==> entries[i].0 != entries[k].0
}

impl JsonV {
    /// A JSON value as JSON text can hold it: no object, at any depth, names an entry
    /// twice.
    pub open spec fn well_formed(self) -> bool
        decreases self,
    {
        match self {
            JsonV::Array(a) => forall|i: int|
                0 <= i < a.len() ==> {
                    proof { assert(decreases_to!(self => a)); assert(decreases_to!(a => a[i])); }
                    #[trigger] a[i].well_formed()
                },
            JsonV::Object(o) => distinct_names(o) && forall|i: int|
                0 <= i < o.len() ==> {
                    proof { assert(decreases_to!(self => o)); assert(decreases_to!(o => o[i])); assert(decreases_to!(o[i] => o[i].1)); }
                    #[trigger] o[i].1.well_formed()
                },
            _ => true,
        }
    }
}

/// Entries whose names all differ from `key` can be passed over in a lookup.
pub(crate) proof fn lemma_entry_value_skip(entries: Seq<(Seq<char>, JsonV)>, key: Seq<char>, i: int)
    requires
        0 <= i <= entries.len(),
        forall|k: int| 0 <= k < i ==> entries[k].0 != key,
    ensures
        entry_value(entries, key) == entry_value(entries.skip(i), key),
    decreases i,
{
    if i > 0 {
        let t = entries.drop_first();
        assert forall|k: int| 0 <= k < i - 1 implies t[k].0 != key by {
            assert(t[k] == entries[k + 1]);
        }
        lemma_entry_value_skip(t, key, i - 1);
        assert(t.skip(i - 1) =~= entries.skip(i));
    } else {
        assert(entries.skip(0) =~= entries);
    }
}

/// Looking up `key` finds entry `i` when that entry has the name and every earlier name
/// has another length.
pub(crate) proof fn lemma_lookup(entries: Seq<(Seq<char>, JsonV)>, key: Seq<char>, i: int)
    requires
        0 <= i < entries.len(),
        entries[i].0 == key,
        forall|j: int| 0 <= j < i ==> (#[trigger] entries[j]).0.len() != key.len(),
    ensures
        entry_value(entries, key) == Some(entries[i].1),
{
    assert forall|j: int| 0 <= j < i implies entries[j].0 != key by {
        assert(entries[j].0.len() != key.len());
    }
    lemma_entry_value_skip(entries, key, i);
    assert(entries.skip(i)[0] == entries[i]);
}

impl Json {
    /// The field `key` of an object: its first entry of that name. Nothing for any
    /// other value.
    pub fn get(&self, key: &str) -> (r: Option<&Json>)
        ensures
            match r {
                Some(v) => self.deep().field(key@) == Some(v.deep()),
                None => self.deep().field(key@) is None,
            },
    {
        match self {
            Json::Object(o) => {
                let ghost es = self.deep()->Object_0;
                let n: usize = o.len();
                let mut i: usize = 0;
                while i < n
                    invariant
                        n == o@.len(),
                        i <= n,
                        self.deep() == JsonV::Object(es),
                        es.len() == n,
                        forall|k: int| 0 <= k < n ==> #[trigger] es[k] == (o@[k].0@, o@[k].1.deep()),
                        forall|k: int| 0 <= k < i ==> es[k].0 != key@,
                    decreases n - i,
                {
                    if same_text(o[i].0.as_str(), key) {
                        proof {
                            lemma_entry_value_skip(es, key@, i as int);
                            let rest = es.skip(i as int);
                            assert(rest[0] == es[i as int]);
                            assert(es[i as int] == (o@[i as int].0@, o@[i as int].1.deep()));
                            assert(rest.len() > 0 && rest[0].0 == key@);
                            assert(entry_value(rest, key@) == Some(rest[0].1));
                        }
                        return Some(&o[i].1);
                    }
                    i = i + 1;
                }
                proof {
                    lemma_entry_value_skip(es, key@, n as int);
                }
                None
            },
            _ => None,
        }
    }

    /// The element at `index` of an array; nothing for any other value or index.
    pub fn get_index(&self, index: usize) -> (r: Option<&Json>)
        ensures
            match r {
                Some(v) => self.deep().item(index as int) == Some(v.deep()),
                None => self.deep().item(index as int) is None,
            },
    {
        match self {
            Json::Array(a) => {
                if index < a.len() {
                    Some(&a[index])
                } else {
                    None
                }
            },
            _ => None,
        }
    }

    /// The elements of an array; nothing for any other value.
    pub fn as_array(&self) -> (r: Option<&Vec<Json>>)
        ensures
            match r {
                Some(a) => self == Json::Array(*a),
                None => !(self is Array),
            },
    {
        match self {
            Json::Array(a) => Some(a),
            _ => None,
        }
    }

    /// The text of a string; nothing for any other value.
    pub fn as_str(&self) -> (r: Option<&str>)
        ensures
            match r {
                Some(s) => self.deep() == JsonV::Str(s@),
                None => !(self is Str),
            },
    {
        match self {
            Json::Str(s) => Some(s.as_str()),
            _ => None,
        }
    }
}

impl Clone for Json {
    /// A copy of this value, equal to it in every part.
    fn clone(&self) -> (r: Json)
        ensures
            r.deep() == self.deep(),
        decreases self,
    {
        match self {
            Json::Null => Json::Null,
            Json::Bool(b) => Json::Bool(*b),
            Json::Number(n) => Json::Number(n.clone()),
            Json::Str(s) => Json::Str(s.clone()),
            Json::Array(a) => {
                let mut out: Vec<Json> = Vec::new();
                let n: usize = a.len();
                for i in 0..n
                    invariant
                        n == a@.len(),
                        *self == Json::Array(*a),
                        out@.len() == i,
                        forall|k: int| 0 <= k < i ==> #[trigger] out@[k].deep() == a@[k].deep(),
                {
                    proof {
                        assert(decreases_to!(*self => (*self)->Array_0));
                        assert(decreases_to!(*a => a@));
                        assert(decreases_to!(a@ => a@[i as int]));
                        assert(decreases_to!(*self => a@[i as int]));
                    }
                    let c = a[i].clone();
                    out.push(c);
                }
                let r = Json::Array(out);
                assert forall|k: int| 0 <= k < n implies r.deep()->Array_0[k] == self.deep()->Array_0[k] by {
                    assert(out@[k].deep() == a@[k].deep());
                }
                assert(r.deep()->Array_0 =~= self.deep()->Array_0);
                r
            },
            Json::Object(o) => {
                let mut out: Vec<(String, Json)> = Vec::new();
                let n: usize = o.len();
                for i in 0..n
                    invariant
                        n == o@.len(),
                        *self == Json::Object(*o),
                        out@.len() == i,
                        forall|k: int| 0 <= k < i ==> (#[trigger] out@[k]).0@ == o@[k].0@,
                        forall|k: int| 0 <= k < i ==> (#[trigger] out@[k]).1.deep() == o@[k].1.deep(),
                {
                    proof {
                        assert(decreases_to!(*self => (*self)->Object_0));
                        assert(decreases_to!(*o => o@));
                        assert(decreases_to!(o@ => o@[i as int]));
                        assert(decreases_to!(o@[i as int] => o@[i as int].1));
                        assert(decreases_to!(*self => o@[i as int].1));
                    }
                    let key = o[i].0.clone();
                    let value = o[i].1.clone();
                    out.push((key, value));
                }
                let r = Json::Object(out);
                assert forall|k: int| 0 <= k < n implies r.deep()->Object_0[k] == self.deep()->Object_0[k] by {
                    assert(out@[k].0@ == o@[k].0@);
                    assert(out@[k].1.deep() == o@[k].1.deep());
                }
                assert(r.deep()->Object_0 =~= self.deep()->Object_0);
                r
            },
        }
    }
}

/// The mathematical values of a list of JSON values.
pub open spec fn items_deep(items: Seq<Json>) -> Seq<JsonV> {
    Seq::new(items.len(), |i: int| items[i].deep())
}

/// The mathematical values of a list of object entries.
pub open spec fn entries_deep(entries: Seq<(String, Json)>) -> Seq<(Seq<char>, JsonV)> {
    Seq::new(entries.len(), |i: int| (entries[i].0@, entries[i].1.deep()))
}

/// An array's value is that of its elements.
pub(crate) proof fn lemma_deep_array(items: Vec<Json>)
    ensures
        Json::Array(items).deep() == JsonV::Array(items_deep(items@)),
{
    assert(Json::Array(items).deep()->Array_0 =~= items_deep(items@));
}

/// An object's value is that of its entries.
pub(crate) proof fn lemma_deep_object(entries: Vec<(String, Json)>)
    ensures
        Json::Object(entries).deep() == JsonV::Object(entries_deep(entries@)),
{
    assert(Json::Object(entries).deep()->Object_0 =~= entries_deep(entries@));
}

/// Appends the entry `key: value` to an object's entries.
pub(crate) fn push_entry(entries: &mut Vec<(String, Json)>, key: &str, value: Json)
    ensures
        entries_deep(final(entries)@) == entries_deep(old(entries)@).push((key@, value.deep())),
{
    let ghost v = value.deep();
    entries.push((String::from_str(key), value));
    assert(entries_deep(entries@) =~= entries_deep(old(entries)@).push((key@, v)));
}

/// Appends `value` to an array's elements.
pub(crate) fn push_item(items: &mut Vec<Json>, value: Json)
    ensures
        items_deep(final(items)@) == items_deep(old(items)@).push(value.deep()),
{
    let ghost v = value.deep();
    items.push(value);
    assert(items_deep(items@) =~= items_deep(old(items)@).push(v));
}

/// A JSON object with the one entry `key: value`.
pub open spec fn single(key: Seq<char>, value: JsonV) -> JsonV {
    JsonV::Object(seq![(key, value)])
}

/// The part of a request that carries the prompt.
pub open spec fn text_part(prompt: Seq<char>) -> JsonV {
    single("text"@, JsonV::Str(prompt))
}

/// The part of a request that hands Gemini the video by its URL.
pub open spec fn video_part(video_url: Seq<char>) -> JsonV {
    single("file_data"@, single("file_uri"@, JsonV::Str(video_url)))
}

/// The `contents` entry of a request: one turn with the prompt, then the video.
pub open spec fn contents_entry(prompt: Seq<char>, video_url: Seq<char>) -> (Seq<char>, JsonV) {
    (
        "contents"@,
        JsonV::Array(
            seq![single("parts"@, JsonV::Array(seq![text_part(prompt), video_part(video_url)]))],
        ),
    )
}

/// The `generationConfig` entry that asks for JSON output shaped by `schema`.
pub open spec fn generation_config_entry(schema: JsonV) -> (Seq<char>, JsonV) {
    (
        "generationConfig"@,
        JsonV::Object(
            seq![
                ("responseMimeType"@, JsonV::Str("application/json"@)),
                ("responseSchema"@, schema),
            ],
        ),
    )
}

/// The body of a `generateContent` request for a prompt about a video; with a schema,
/// it asks for structured JSON output.
pub open spec fn request_body(prompt: Seq<char>, video_url: Seq<char>, schema: Option<JsonV>) -> JsonV {
    match schema {
        None => JsonV::Object(seq![contents_entry(prompt, video_url)]),
        Some(s) => JsonV::Object(seq![contents_entry(prompt, video_url), generation_config_entry(s)]),
    }
}

/// The body sent for a prompt about a video always carries the prompt and the video
/// as its `contents`, and carries a `generationConfig` exactly when a schema is given:
/// then it asks for `application/json` output in that schema's shape.
pub proof fn lemma_body_fields(prompt: Seq<char>, video_url: Seq<char>, schema: Option<JsonV>)
    ensures
        request_body(prompt, video_url, schema).field("contents"@) == Some(
            JsonV::Array(
                seq![
                    JsonV::Object(
                        seq![
                            (
                                "parts"@,
                                JsonV::Array(
                                    seq![
                                        JsonV::Object(seq![("text"@, JsonV::Str(prompt))]),
                                        JsonV::Object(
                                            seq![
                                                (
                                                    "file_data"@,
                                                    JsonV::Object(
                                                        seq![("file_uri"@, JsonV::Str(video_url))],
                                                    ),
                                                ),
                                            ],
                                        ),
                                    ],
                                ),
                            ),
                        ],
                    ),
                ],
            ),
        ),
        schema matches Some(s) ==> request_body(prompt, video_url, schema).field(
            "generationConfig"@,
        ) == Some(
            JsonV::Object(
                seq![
                    ("responseMimeType"@, JsonV::Str("application/json"@)),
                    ("responseSchema"@, s),
                ],
            ),
        ),
        schema is None ==> request_body(prompt, video_url, schema).field("generationConfig"@) is None,
{
    reveal_strlit("contents");
    reveal_strlit("generationConfig");
    let c = contents_entry(prompt, video_url);
    assert("contents"@.len() != "generationConfig"@.len());
    match schema {
        Some(s) => {
            let es = seq![c, generation_config_entry(s)];
            assert(es.drop_first() =~= seq![generation_config_entry(s)]);
            assert(entry_value(seq![generation_config_entry(s)], "generationConfig"@) == Some(
                generation_config_entry(s).1,
            ));
            assert(es[0].0 != "generationConfig"@);
            assert(seq![generation_config_entry(s)].drop_first() =~= Seq::<(Seq<char>, JsonV)>::empty());
        },
        None => {
            assert(seq![c].drop_first() =~= Seq::<(Seq<char>, JsonV)>::empty());
            assert(c.0 != "generationConfig"@);
            assert(entry_value(Seq::<(Seq<char>, JsonV)>::empty(), "generationConfig"@) is None);
        },
    }
}

/// Entries with pairwise different names, and well-formed values, make a well-formed
/// object.
pub(crate) proof fn lemma_object_well_formed(entries: Seq<(Seq<char>, JsonV)>)
    requires
        forall|i: int, k: int| 0 <= i < entries.len() && 0 <= k < entries.len() && i != k
            ==> entries[i].0.len() != entries[k].0.len(),
        forall|i: int| 0 <= i < entries.len() ==> (#[trigger] entries[i]).1.well_formed(),
    ensures
        JsonV::Object(entries).well_formed(),
{
    assert forall|i: int, k: int| 0 <= i < k < entries.len() implies entries[i].0 != entries[k].0 by {
        assert(entries[i].0.len() != entries[k].0.len());
    }
    assert forall|i: int| 0 <= i < entries.len() implies #[trigger] entries[i].1.well_formed() by {
        assert(entries[i].1.well_formed());
    }
}

/// Well-formed elements make a well-formed array.
pub(crate) proof fn lemma_array_well_formed(items: Seq<JsonV>)
    requires
        forall|i: int| 0 <= i < items.len() ==> (#[trigger] items[i]).well_formed(),
    ensures
        JsonV::Array(items).well_formed(),
{
}

/// The body sent for a prompt about a video is well formed whenever its schema is.
pub proof fn lemma_request_body_well_formed(
    prompt: Seq<char>,
    video_url: Seq<char>,
    schema: Option<JsonV>,
)
    requires
        schema matches Some(s) ==> s.well_formed(),
    ensures
        request_body(prompt, video_url, schema).well_formed(),
{
    reveal_strlit("text");
    reveal_strlit("file_data");
    reveal_strlit("file_uri");
    reveal_strlit("parts");
    reveal_strlit("contents");
    reveal_strlit("generationConfig");
    reveal_strlit("responseMimeType");
    reveal_strlit("responseSchema");
    lemma_object_well_formed(seq![("text"@, JsonV::Str(prompt))]);
    lemma_object_well_formed(seq![("file_uri"@, JsonV::Str(video_url))]);
    lemma_object_well_formed(seq![("file_data"@, single("file_uri"@, JsonV::Str(video_url)))]);
    let parts = seq![text_part(prompt), video_part(video_url)];
    assert(parts[0] == text_part(prompt) && parts[1] == video_part(video_url));
    lemma_array_well_formed(parts);
    lemma_object_well_formed(seq![("parts"@, JsonV::Array(parts))]);
    let turns = seq![single("parts"@, JsonV::Array(parts))];
    lemma_array_well_formed(turns);
    let c = contents_entry(prompt, video_url);
    match schema {
        Some(s) => {
            let config = seq![
                ("responseMimeType"@, JsonV::Str("application/json"@)),
                ("responseSchema"@, s),
            ];
            lemma_object_well_formed(config);
            lemma_object_well_formed(seq![c, generation_config_entry(s)]);
        },
        None => {
            lemma_object_well_formed(seq![c]);
        },
    }
}

/// A JSON string holding `s`.
pub(crate) fn json_str(s: &str) -> (r: Json)
    ensures
        r.deep() == JsonV::Str(s@),
{
    Json::Str(String::from_str(s))
}

/// A JSON object with the one entry `key: value`.
pub(crate) fn json_single(key: &str, value: Json) -> (r: Json)
    ensures
        r.deep() == single(key@, value.deep()),
{
    let mut entries: Vec<(String, Json)> = Vec::new();
    entries.push((String::from_str(key), value));
    let r = Json::Object(entries);
    assert(r.deep()->Object_0 =~= seq![(key@, value.deep())]);
    r
}

/// Builds the Gemini `generateContent` request body for a video URL and a prompt. When
/// `schema` is given, it asks for structured JSON output in that shape.
pub fn build_request_body(prompt: &str, video_url: &str, schema: Option<&Json>) -> (r: Json)
    ensures
        (schema matches Some(s) ==> s.deep().well_formed()) ==> r.deep().well_formed(),
        r.deep() == request_body(
            prompt@,
            video_url@,
            match schema {
                Some(s) => Some(s.deep()),
                None => None,
            },
        ),
{
    proof {
        let sv = match schema {
            Some(s) => Some(s.deep()),
            None => None,
        };
        if sv matches Some(v) ==> v.well_formed() {
            lemma_request_body_well_formed(prompt@, video_url@, sv);
        }
    }
    let text = json_single("text", json_str(prompt));
    let video = json_single("file_data", json_single("file_uri", json_str(video_url)));
    let ghost tv = text.deep();
    let ghost vv = video.deep();
    let mut parts: Vec<Json> = Vec::new();
    parts.push(text);
    parts.push(video);
    let parts = Json::Array(parts);
    assert(parts.deep()->Array_0 =~= seq![tv, vv]);
    let turn = json_single("parts", parts);
    let ghost turn_v = turn.deep();
    let mut turns: Vec<Json> = Vec::new();
    turns.push(turn);
    let turns = Json::Array(turns);
    assert(turns.deep()->Array_0 =~= seq![turn_v]);
    let ghost turns_v = turns.deep();
    let mut entries: Vec<(String, Json)> = Vec::new();
    entries.push((String::from_str("contents"), turns));
    match schema {
        Some(s) => {
            let mime = json_str("application/json");
            let ghost mime_v = mime.deep();
            let copy = s.clone();
            let mut config: Vec<(String, Json)> = Vec::new();
            config.push((String::from_str("responseMimeType"), mime));
            config.push((String::from_str("responseSchema"), copy));
            let config = Json::Object(config);
            assert(config.deep()->Object_0 =~= seq![
                ("responseMimeType"@, mime_v),
                ("responseSchema"@, s.deep()),
            ]);
            let ghost config_v = config.deep();
            entries.push((String::from_str("generationConfig"), config));
            let r = Json::Object(entries);
            assert(r.deep()->Object_0 =~= seq![("contents"@, turns_v), ("generationConfig"@, config_v)]);
            r
        },
        None => {
            let r = Json::Object(entries);
            assert(r.deep()->Object_0 =~= seq![("contents"@, turns_v)]);
            r
        },
    }
}

/// The parts of the first candidate of a Gemini response, when
/// `candidates[0].content.parts` is an array.
pub open spec fn response_parts(body: JsonV) -> Option<Seq<JsonV>> {
    match body.field("candidates"@) {
        Some(candidates) => match candidates.item(0) {
            Some(first) => match first.field("content"@) {
                Some(content) => match content.field("parts"@) {
                    Some(JsonV::Array(parts)) => Some(parts),
                    _ => None,
                },
                None => None,
            },
            None => None,
        },
        None => None,
    }
}

/// The `text` string of the first part that carries one.
pub open spec fn first_text(parts: Seq<JsonV>) -> Option<Seq<char>>
    decreases parts.len(),
{
    if parts.len() == 0 {
        None
    } else {
        match parts[0].field("text"@) {
            Some(JsonV::Str(t)) => Some(t),
            _ => first_text(parts.drop_first()),
        }
    }
}

/// The parts read from a response are those of its first candidate: the response's
/// `candidates` is a non-empty array whose first element's `content` has `parts` as an
/// array, and those are the parts; otherwise there are none.
pub proof fn lemma_response_parts_of_first_candidate(body: JsonV)
    ensures
        response_parts(body) == match body.field("candidates"@) {
            Some(JsonV::Array(cs)) => if cs.len() > 0 {
                match cs[0].field("content"@) {
                    Some(c) => match c.field("parts"@) {
                        Some(JsonV::Array(ps)) => Some(ps),
                        _ => None,
                    },
                    None => None,
                }
            } else {
                None
            },
            _ => None,
        },
{
}

/// A part carries a `text` string.
pub open spec fn carries_text(part: JsonV) -> bool {
    part.field("text"@) matches Some(JsonV::Str(_))
}

/// The text read from a response's parts is the `text` string of the first part that
/// carries one, unchanged, whatever its length; when no part carries one, there is none.
pub proof fn lemma_first_text_is_first_text_string(parts: Seq<JsonV>)
    ensures
        first_text(parts) matches Some(t) ==> exists|i: int|
            0 <= i < parts.len() && (#[trigger] parts[i]).field("text"@) == Some(JsonV::Str(t))
                && forall|j: int| 0 <= j < i ==> !carries_text(#[trigger] parts[j]),
        first_text(parts) is None ==> forall|i: int|
            0 <= i < parts.len() ==> !carries_text(#[trigger] parts[i]),
    decreases parts.len(),
{
    if parts.len() > 0 {
        let rest = parts.drop_first();
        lemma_first_text_is_first_text_string(rest);
        match parts[0].field("text"@) {
            Some(JsonV::Str(t)) => {
                assert(parts[0].field("text"@) == Some(JsonV::Str(t)));
            },
            _ => {
                assert(!carries_text(parts[0]));
                if let Some(t) = first_text(parts) {
                    let i = choose|i: int|
                        0 <= i < rest.len() && (#[trigger] rest[i]).field("text"@) == Some(
                            JsonV::Str(t),
                        ) && forall|j: int| 0 <= j < i ==> !carries_text(#[trigger] rest[j]);
                    assert(parts[i + 1] == rest[i]);
                    assert forall|j: int| 0 <= j < i + 1 implies !carries_text(#[trigger] parts[j]) by {
                        if j > 0 {
                            assert(parts[j] == rest[j - 1]);
                        }
                    }
                } else {
                    assert forall|i: int| 0 <= i < parts.len() implies !carries_text(#[trigger] parts[i]) by {
                        if i > 0 {
                            assert(parts[i] == rest[i - 1]);
                        }
                    }
                }
            },
        }
    }
}

/// Extracts the generated text from a Gemini response: the `text` of the first part of
/// the first candidate that carries one, so that parts without text (such as thought
/// signatures) are skipped. `shown` is the response as error messages show it.
pub fn parse_response_text(body: &Json, shown: &str) -> (r: Result<String, VaskError>)
    ensures
        match response_parts(body.deep()) {
            None => r matches Err(VaskError::NoCandidateParts { body: b }) && b@ == shown@,
            Some(parts) => match first_text(parts) {
                Some(t) => r matches Ok(s) && s@ == t,
                None => r matches Err(VaskError::NoTextPart { body: b }) && b@ == shown@,
            },
        },
{
    let parts_value = match body.get("candidates") {
        Some(candidates) => match candidates.get_index(0) {
            Some(first) => match first.get("content") {
                Some(content) => content.get("parts"),
                None => None,
            },
            None => None,
        },
        None => None,
    };
    let parts = match parts_value {
        Some(p) => match p.as_array() {
            Some(a) => a,
            None => return Err(VaskError::NoCandidateParts { body: String::from_str(shown) }),
        },
        None => return Err(VaskError::NoCandidateParts { body: String::from_str(shown) }),
    };
    let ghost ps = parts_value.unwrap().deep()->Array_0;
    assert(response_parts(body.deep()) == Some(ps));
    let n: usize = parts.len();
    let mut i: usize = 0;
    assert(ps.skip(0) =~= ps);
    while i < n
        invariant
            response_parts(body.deep()) == Some(ps),
            n == parts@.len(),
            i <= n,
            ps.len() == n,
            forall|k: int| 0 <= k < n ==> #[trigger] ps[k] == parts@[k].deep(),
            first_text(ps) == first_text(ps.skip(i as int)),
        decreases n - i,
    {
        let ghost rest = ps.skip(i as int);
        assert(rest[0] == parts@[i as int].deep());
        assert(rest.drop_first() =~= ps.skip(i + 1));
        match parts[i].get("text") {
            Some(t) => match t.as_str() {
                Some(s) => {
                    assert(rest[0].field("text"@) == Some(JsonV::Str(s@)));
                    assert(first_text(rest) == Some(s@));
                    return Ok(String::from_str(s));
                },
                None => {},
            },
            None => {},
        }
        i = i + 1;
    }
    assert(ps.skip(n as int) =~= Seq::<JsonV>::empty());
    Err(VaskError::NoTextPart { body: String::from_str(shown) })
}

/// Whether an HTTP status code reports success.
pub open spec fn is_success_status(code: u16) -> bool {
    200 <= code <= 299
}

/// Checks the status of a Gemini call: a code outside 200..=299 is an error that shows
/// `status` (code and reason) and the `body` that came with it.
pub fn check_status(code: u16, status: &str, body: &str) -> (r: Result<(), VaskError>)
    ensures
        r is Ok <==> is_success_status(code),
        r matches Err(e) ==> e matches VaskError::ApiError { status: s, body: b } && s@ == status@
            && b@ == body@,
{
    if 200 <= code && code <= 299 {
        Ok(())
    } else {
        Err(VaskError::ApiError { status: String::from_str(status), body: String::from_str(body) })
    }
}

/// The address of the `generateContent` call for `model`, with the API key as a query
/// parameter.
pub open spec fn generate_content_url_text(model: Seq<char>, api_key: Seq<char>) -> Seq<char> {
    "https://generativelanguage.googleapis.com/v1beta/models/"@ + model + ":generateContent?key="@
        + api_key
}

/// The address to post a `generateContent` request for `model` to.
pub fn generate_content_url(model: &str, api_key: &str) -> (r: String)
    ensures
        r@ == generate_content_url_text(model@, api_key@),
{
    String::from_str("https://generativelanguage.googleapis.com/v1beta/models/").concat(model).concat(
        ":generateContent?key=",
    ).concat(api_key)
}

} // verus!
