use vstd::prelude::*;
use vstd::string::StringExecFns;
use vstd::utf8::encode_utf8;

use crate::fingerprint::{fingerprint, fingerprint_of, MAX_DIGEST_INPUT};
use crate::json::{canonical_text, encode, lookup, member, members_of, push_member, Json, JsonValue};
use crate::lifecycle::PipelineError;
use crate::types::message::opt_view;
use crate::types::request::{ChatRequest, Tool};
use crate::types::ToJson;

verus! {

/// What a path names on disk.
#[derive(Debug, Clone, Copy, PartialEq, Eq)]
pub enum TrivialFSPathType {
    NoSuchPath,
    File,
    Directory,
}

/// The canonical text of a request: its JSON form, without whitespace, members in key order.
pub open spec fn canonical_request(request: ChatRequest) -> Seq<char> {
    encode(request.json_spec())
}

/// The cache key of a request: the fingerprint of the UTF-8 bytes of its canonical text.
pub open spec fn request_key_of(request: ChatRequest) -> Seq<char> {
    fingerprint_of(encode_utf8(canonical_request(request)))
}

/// Whether a request's canonical text is short enough to be fingerprinted.
pub open spec fn keyable(request: ChatRequest) -> bool {
    encode_utf8(canonical_request(request)).len() <= MAX_DIGEST_INPUT as int
}

pub open spec fn entry_path_of(root: Seq<char>, key: Seq<char>) -> Seq<char> {
    root + "/"@ + key + ".json"@
}

/// The persisted entry for a request and its response.
pub open spec fn cache_entry_of(request: Json, response: Json) -> Json {
    Json::Object(seq![("request"@, request), ("response"@, response)])
}

/// The outcome of a lookup given what is stored at the request's path (`None` when
/// nothing is). A hit whose stored request does not have the live request's canonical
/// text is corruption; an entry without both members is corrupt state.
pub open spec fn cache_lookup_of(request: Json, entry: Option<Json>) -> Result<Option<Json>, PipelineError> {
    match entry {
        None => Ok(None),
        Some(e) => match (member(e, "request"@), member(e, "response"@)) {
            (Some(stored), Some(response)) => if encode(stored) == encode(request) {
                Ok(Some(response))
            } else {
                Err(PipelineError::CacheCorruption)
            },
            _ => Err(PipelineError::CorruptState),
        },
    }
}

pub open spec fn opt_json_view(r: Result<Option<JsonValue>, PipelineError>) -> Result<Option<Json>, PipelineError> {
    match r {
        Ok(Some(v)) => Ok(Some(v@)),
        Ok(None) => Ok(None),
        Err(e) => Err(e),
    }
}

/// A content-addressed store of responses, one entry per request fingerprint under `root`.
pub struct DefaultRequestCache {
    pub root: String,
}

impl DefaultRequestCache {
    /// A cache rooted at `root`, which must be a directory.
    pub fn new(root: &str, root_type: TrivialFSPathType) -> (r: Result<DefaultRequestCache, PipelineError>)
        ensures
            root_type == TrivialFSPathType::Directory ==> (r matches Ok(c) && c.root@ == root@),
            root_type != TrivialFSPathType::Directory ==> r == Err::<DefaultRequestCache, PipelineError>(
                PipelineError::NotADirectory,
            ),
    {
        match root_type {
            TrivialFSPathType::Directory => Ok(DefaultRequestCache { root: String::from_str(root) }),
            _ => Err(PipelineError::NotADirectory),
        }
    }

    /// The cache key of `request`; `InputTooLong` when its canonical text cannot be hashed.
    pub fn key(&self, request: &ChatRequest) -> (r: Result<String, PipelineError>)
        ensures
            keyable(*request) ==> (r matches Ok(k) && k@ == request_key_of(*request)),
            !keyable(*request) ==> r == Err::<String, PipelineError>(PipelineError::InputTooLong),
    {
        let text = canonical_text(&request.to_json());
        let bytes = text.as_str().as_bytes();
        if bytes.len() as u64 > MAX_DIGEST_INPUT {
            Err(PipelineError::InputTooLong)
        } else {
            Ok(fingerprint(bytes))
        }
    }

    pub fn key_to_path(&self, key: &str) -> (r: String)
        ensures
            r@ == entry_path_of(self.root@, key@),
    {
        let mut path = self.root.clone();
        path.append("/");
        path.append(key);
        path.append(".json");
        path
    }

    /// Where the entry for `request` is persisted.
    pub fn request_path(&self, request: &ChatRequest) -> (r: Result<String, PipelineError>)
        ensures
            keyable(*request) ==> (r matches Ok(p) && p@ == entry_path_of(self.root@, request_key_of(*request))),
            !keyable(*request) ==> r == Err::<String, PipelineError>(PipelineError::InputTooLong),
    {
        match self.key(request) {
            Ok(k) => Ok(self.key_to_path(k.as_str())),
            Err(e) => Err(e),
        }
    }

    /// Looks up `request` given the entry stored at `request_path(request)`, if any.
    pub fn get_response_if_cached(&self, request: &ChatRequest, entry: Option<&JsonValue>) -> (r: Result<Option<JsonValue>, PipelineError>)
        ensures
            opt_json_view(r) == cache_lookup_of(
                request.json_spec(),
                match entry {
                    Some(e) => Some(e@),
                    None => None,
                },
            ),
    {
        let e = match entry {
            None => return Ok(None),
            Some(e) => e,
        };
        match (e.get("request"), e.get("response")) {
            (Some(stored), Some(response)) => {
                let live = canonical_text(&request.to_json());
                let kept = canonical_text(stored);
                if kept == live {
                    Ok(Some(response.deep_copy()))
                } else {
                    Err(PipelineError::CacheCorruption)
                }
            },
            _ => Err(PipelineError::CorruptState),
        }
    }

    /// The path and entry that record `response` for `request`.
    pub fn cache_response(&self, request: &ChatRequest, response: &JsonValue) -> (r: Result<(String, JsonValue), PipelineError>)
        ensures
            keyable(*request) ==> (r matches Ok(w) && w.0@ == entry_path_of(self.root@, request_key_of(*request))
                && w.1@ == cache_entry_of(request.json_spec(), response@)),
            !keyable(*request) ==> r == Err::<(String, JsonValue), PipelineError>(PipelineError::InputTooLong),
    {
        let path = match self.request_path(request) {
            Ok(p) => p,
            Err(e) => return Err(e),
        };
        let mut members: Vec<(String, JsonValue)> = Vec::new();
        push_member(&mut members, "request", request.to_json());
        push_member(&mut members, "response", response.deep_copy());
        assert(members_of(members@) =~= seq![("request"@, request.json_spec()), ("response"@, response@)]);
        Ok((path, JsonValue::Object(members)))
    }
}

/// What to do for a request after consulting the cache.
#[derive(Debug, PartialEq)]
pub enum RequestOutcome {
    /// The cache holds the response.
    Cached(JsonValue),
    /// The external call must be made, and its response recorded with `record_response`.
    Issue,
}

/// The client side of external calls, memoized through a request cache.
pub struct OpenAILLM {
    pub cache: DefaultRequestCache,
}

impl OpenAILLM {
    pub fn new(cache: DefaultRequestCache) -> (r: OpenAILLM)
        ensures
            r.cache == cache,
    {
        OpenAILLM { cache }
    }

    /// Decides a request from the entry stored at its path: answer from the cache on a
    /// hit, make the external call on a miss, stop on corruption.
    pub fn make_request(&self, request: &ChatRequest, entry: Option<&JsonValue>) -> (r: Result<RequestOutcome, PipelineError>)
        ensures
            match cache_lookup_of(
                request.json_spec(),
                match entry {
                    Some(e) => Some(e@),
                    None => None,
                },
            ) {
                Ok(Some(resp)) => (r matches Ok(RequestOutcome::Cached(v)) && v@ == resp),
                Ok(None) => r == Ok::<RequestOutcome, PipelineError>(RequestOutcome::Issue),
                Err(e) => r == Err::<RequestOutcome, PipelineError>(e),
            },
    {
        match self.cache.get_response_if_cached(request, entry) {
            Ok(Some(v)) => Ok(RequestOutcome::Cached(v)),
            Ok(None) => Ok(RequestOutcome::Issue),
            Err(e) => Err(e),
        }
    }

    /// The path and entry to persist after the external call answered `response`.
    pub fn record_response(&self, request: &ChatRequest, response: &JsonValue) -> (r: Result<(String, JsonValue), PipelineError>)
        ensures
            keyable(*request) ==> (r matches Ok(w) && w.0@ == entry_path_of(self.cache.root@, request_key_of(*request))
                && w.1@ == cache_entry_of(request.json_spec(), response@)),
            !keyable(*request) ==> r == Err::<(String, JsonValue), PipelineError>(PipelineError::InputTooLong),
    {
        self.cache.cache_response(request, response)
    }
}


proof fn lemma_entry_members(request: Json, response: Json)
    ensures
        member(cache_entry_of(request, response), "request"@) == Some(request),
        member(cache_entry_of(request, response), "response"@) == Some(response),
{
    reveal_strlit("request");
    reveal_strlit("response");
    assert("request"@.len() == 7 && "response"@.len() == 8);
    reveal_with_fuel(lookup, 3);
}

/// Storing a response for a request and then looking the request up at the same path
/// gives back exactly that response.
pub proof fn lemma_cache_round_trip(request: ChatRequest, response: Json)
    ensures
        cache_lookup_of(request.json_spec(), Some(cache_entry_of(request.json_spec(), response)))
            == Ok::<Option<Json>, PipelineError>(Some(response)),
{
    lemma_entry_members(request.json_spec(), response);
}

pub open spec fn opt_tools_view(o: Option<Vec<Tool>>) -> Option<Seq<Tool>> {
    match o {
        Some(ts) => Some(ts@),
        None => None,
    }
}

/// Two requests with the same field values have the same canonical text, the same key and
/// the same lookup result, whatever order their optional fields were set in: setting two
/// options in either order gives the same request.
pub proof fn lemma_canonical_stability(a: ChatRequest, b: ChatRequest, entry: Option<Json>, seed: i64, store: bool)
    requires
        a.model == b.model,
        a.input@ == b.input@,
        opt_view(a.instructions) == opt_view(b.instructions),
        a.response_format == b.response_format,
        a.seed == b.seed,
        a.store == b.store,
        opt_tools_view(a.tools) == opt_tools_view(b.tools),
        a.tool_choice == b.tool_choice,
        opt_view(a.previous_response_id) == opt_view(b.previous_response_id),
    ensures
        canonical_request(a) == canonical_request(b),
        request_key_of(a) == request_key_of(b),
        cache_lookup_of(a.json_spec(), entry) == cache_lookup_of(b.json_spec(), entry),
        (ChatRequest { seed: Some(seed), ..(ChatRequest { store: Some(store), ..a }) }) == (ChatRequest {
            store: Some(store),
            ..(ChatRequest { seed: Some(seed), ..a })
        }),
{
    assert(crate::types::request::request_members(a) =~= crate::types::request::request_members(b));
}

/// A lookup never returns the response of an entry whose stored request differs from the
/// live one: tampering with the stored request makes the lookup fail with corruption.
pub proof fn lemma_corruption_detected(request: ChatRequest, stored: Json, response: Json)
    requires
        encode(stored) != canonical_request(request),
    ensures
        cache_lookup_of(request.json_spec(), Some(cache_entry_of(stored, response)))
            == Err::<Option<Json>, PipelineError>(PipelineError::CacheCorruption),
{
    lemma_entry_members(stored, response);
}

/// Rerunning with a populated cache: once the response to a request has been recorded, the
/// request is answered from the cache with that response and no external call is made, so
/// outputs written from it have the same content and the same fingerprints as before.
pub proof fn lemma_idempotent_rerun(request: ChatRequest, response: Json, first_output: Seq<u8>, second_output: Seq<u8>)
    requires
        first_output == second_output,
    ensures
        cache_lookup_of(request.json_spec(), Some(cache_entry_of(request.json_spec(), response)))
            == Ok::<Option<Json>, PipelineError>(Some(response)),
        fingerprint_of(first_output) == fingerprint_of(second_output),
{
    lemma_cache_round_trip(request, response);
}

} // verus!
