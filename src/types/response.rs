use vstd::prelude::*;

use crate::json::{json_str, member, members_of, push_member, str_member, Json, JsonValue};
use crate::types::error::Error;
use crate::types::message::{opt_str_member, opt_view, push_opt_str};
use crate::types::model_id::str_eq;
use crate::types::request::{opt_json_member, push_opt};
use crate::types::ToJson;

verus! {

#[derive(Debug, Clone, Copy, PartialEq, Eq)]
pub enum FinishReason {
    Stop,
    ToolCalls,
}

impl FinishReason {
    pub fn from_json(v: &JsonValue) -> (r: Result<FinishReason, Error>)
        ensures
            r == if v@ == Json::Str("stop"@) {
                Ok::<FinishReason, Error>(FinishReason::Stop)
            } else if v@ == Json::Str("tool_calls"@) {
                Ok(FinishReason::ToolCalls)
            } else {
                Err(Error::InvalidFinishReason)
            },
    {
        match v.as_str() {
            Some(s) => if str_eq(s.as_str(), "stop") {
                Ok(FinishReason::Stop)
            } else if str_eq(s.as_str(), "tool_calls") {
                Ok(FinishReason::ToolCalls)
            } else {
                Err(Error::InvalidFinishReason)
            },
            None => Err(Error::InvalidFinishReason),
        }
    }
}

impl ToJson for FinishReason {
    open spec fn json_spec(&self) -> Json {
        match self {
            FinishReason::Stop => Json::Str("stop"@),
            FinishReason::ToolCalls => Json::Str("tool_calls"@),
        }
    }

    fn to_json(&self) -> (r: JsonValue) {
        match self {
            FinishReason::Stop => json_str("stop"),
            FinishReason::ToolCalls => json_str("tool_calls"),
        }
    }
}

/// Reading back the JSON form of a finish reason gives the same reason.
pub proof fn lemma_finish_reason_round_trip(f: FinishReason)
    ensures
        f.json_spec() == Json::Str("stop"@) <==> f == FinishReason::Stop,
        f.json_spec() == Json::Str("tool_calls"@) <==> f == FinishReason::ToolCalls,
{
    reveal_strlit("stop");
    reveal_strlit("tool_calls");
    assert("stop"@.len() == 4 && "tool_calls"@.len() == 10);
}

#[derive(Debug, Clone, PartialEq, Eq)]
pub struct InputTokensDetails {
    pub cached_tokens: Option<u32>,
}

#[derive(Debug, Clone, PartialEq, Eq)]
pub struct OutputTokensDetails {
    pub reasoning_tokens: Option<u32>,
}

/// Token counts of a response.
#[derive(Debug, Clone, PartialEq, Eq)]
pub struct UsageStats {
    pub input_tokens: u32,
    pub input_tokens_details: Option<InputTokensDetails>,
    pub output_tokens: u32,
    pub output_tokens_details: Option<OutputTokensDetails>,
    pub total_tokens: u32,
}

/// An object with the count `key`, or an empty one.
pub open spec fn count_object(key: Seq<char>, count: Option<u32>) -> Json {
    Json::Object(
        match count {
            Some(c) => seq![(key, Json::Int(c as int))],
            None => Seq::empty(),
        },
    )
}

fn count_object_to_json(key: &str, count: Option<u32>) -> (r: JsonValue)
    ensures
        r@ == count_object(key@, count),
{
    let mut members: Vec<(String, JsonValue)> = Vec::new();
    match count {
        Some(c) => {
            push_member(&mut members, key, JsonValue::Int(c as i64));
            assert(members_of(members@) =~= seq![(key@, Json::Int(c as int))]);
        },
        None => {
            assert(members_of(members@) =~= Seq::<(Seq<char>, Json)>::empty());
        },
    }
    JsonValue::Object(members)
}

/// An integer member read as a count: its low 32 bits.
pub open spec fn count_of(j: Option<Json>) -> Option<u32> {
    match j {
        Some(Json::Int(i)) => Some((i as i64) as u32),
        _ => None,
    }
}

pub open spec fn usage_members(u: UsageStats) -> Seq<(Seq<char>, Json)> {
    seq![("input_tokens"@, Json::Int(u.input_tokens as int))] + opt_json_member(
        "input_tokens_details"@,
        match u.input_tokens_details {
            Some(d) => Some(count_object("cached_tokens"@, d.cached_tokens)),
            None => None,
        },
    ) + seq![("output_tokens"@, Json::Int(u.output_tokens as int))] + opt_json_member(
        "output_tokens_details"@,
        match u.output_tokens_details {
            Some(d) => Some(count_object("reasoning_tokens"@, d.reasoning_tokens)),
            None => None,
        },
    ) + seq![("total_tokens"@, Json::Int(u.total_tokens as int))]
}

fn get_count(v: &JsonValue, key: &str) -> (r: Option<u32>)
    ensures
        r == count_of(member(v@, key@)),
{
    match v.get(key) {
        Some(JsonValue::Int(i)) => Some(*i as u32),
        _ => None,
    }
}

impl UsageStats {
    /// Reads token counts: the three totals must be integers; the details are kept when present.
    pub fn from_json(v: &JsonValue) -> (r: Result<UsageStats, Error>)
        ensures
            match (
                count_of(member(v@, "input_tokens"@)),
                count_of(member(v@, "output_tokens"@)),
                count_of(member(v@, "total_tokens"@)),
            ) {
                (Some(i), Some(o), Some(t)) => (r matches Ok(u) && u.input_tokens == i && u.output_tokens == o
                    && u.total_tokens == t && match u.input_tokens_details {
                    Some(d) => (member(v@, "input_tokens_details"@) matches Some(j) && d.cached_tokens
                        == count_of(member(j, "cached_tokens"@))),
                    None => member(v@, "input_tokens_details"@) is None,
                } && match u.output_tokens_details {
                    Some(d) => (member(v@, "output_tokens_details"@) matches Some(j)
                        && d.reasoning_tokens == count_of(member(j, "reasoning_tokens"@))),
                    None => member(v@, "output_tokens_details"@) is None,
                }),
                _ => r == Err::<UsageStats, Error>(Error::JsonExpectedI64),
            },
    {
        let input_tokens = match get_count(v, "input_tokens") {
            Some(c) => c,
            None => return Err(Error::JsonExpectedI64),
        };
        let output_tokens = match get_count(v, "output_tokens") {
            Some(c) => c,
            None => return Err(Error::JsonExpectedI64),
        };
        let total_tokens = match get_count(v, "total_tokens") {
            Some(c) => c,
            None => return Err(Error::JsonExpectedI64),
        };
        let input_tokens_details = match v.get("input_tokens_details") {
            Some(d) => Some(InputTokensDetails { cached_tokens: get_count(d, "cached_tokens") }),
            None => None,
        };
        let output_tokens_details = match v.get("output_tokens_details") {
            Some(d) => Some(OutputTokensDetails { reasoning_tokens: get_count(d, "reasoning_tokens") }),
            None => None,
        };
        Ok(UsageStats { input_tokens, input_tokens_details, output_tokens, output_tokens_details, total_tokens })
    }
}

impl ToJson for UsageStats {
    open spec fn json_spec(&self) -> Json {
        Json::Object(usage_members(*self))
    }

    fn to_json(&self) -> (r: JsonValue) {
        let mut members: Vec<(String, JsonValue)> = Vec::new();
        push_member(&mut members, "input_tokens", JsonValue::Int(self.input_tokens as i64));
        let ghost first = members_of(members@);
        let input = match &self.input_tokens_details {
            Some(d) => Some(count_object_to_json("cached_tokens", d.cached_tokens)),
            None => None,
        };
        push_opt(&mut members, "input_tokens_details", input);
        let ghost before = members_of(members@);
        push_member(&mut members, "output_tokens", JsonValue::Int(self.output_tokens as i64));
        assert(members_of(members@) =~= before + seq![("output_tokens"@, Json::Int(self.output_tokens as int))]);
        let output = match &self.output_tokens_details {
            Some(d) => Some(count_object_to_json("reasoning_tokens", d.reasoning_tokens)),
            None => None,
        };
        push_opt(&mut members, "output_tokens_details", output);
        let ghost before2 = members_of(members@);
        push_member(&mut members, "total_tokens", JsonValue::Int(self.total_tokens as i64));
        assert(members_of(members@) =~= before2 + seq![("total_tokens"@, Json::Int(self.total_tokens as int))]);
        assert(first =~= seq![("input_tokens"@, Json::Int(self.input_tokens as int))]);
        assert(members_of(members@) == usage_members(*self));
        JsonValue::Object(members)
    }
}

/// One output item of a response.
#[derive(Debug, Clone, PartialEq)]
pub struct ChatCompletionChoice {
    pub id: Option<String>,
    pub output_type: Option<String>,
    pub status: Option<String>,
    pub name: Option<String>,
    pub arguments: Option<String>,
    pub content: Option<JsonValue>,
    pub summary: Option<JsonValue>,
    pub role: Option<String>,
}

pub open spec fn opt_value_json(o: Option<JsonValue>) -> Option<Json> {
    match o {
        Some(v) => Some(v@),
        None => None,
    }
}

/// The members of an output item's JSON form, in key order.
pub open spec fn choice_members(c: ChatCompletionChoice) -> Seq<(Seq<char>, Json)> {
    opt_str_member("arguments"@, opt_view(c.arguments)) + opt_json_member("content"@, opt_value_json(c.content))
        + opt_str_member("id"@, opt_view(c.id)) + opt_str_member("name"@, opt_view(c.name))
        + opt_str_member("role"@, opt_view(c.role)) + opt_str_member("status"@, opt_view(c.status))
        + opt_json_member("summary"@, opt_value_json(c.summary)) + opt_str_member(
        "type"@,
        opt_view(c.output_type),
    )
}

fn copy_opt(v: Option<&JsonValue>) -> (r: Option<JsonValue>)
    ensures
        opt_value_json(r) == match v {
            Some(x) => Some(x@),
            None => None,
        },
{
    match v {
        Some(x) => Some(x.deep_copy()),
        None => None,
    }
}

impl ChatCompletionChoice {
    /// Reads an output item: each string member is kept when it is a string, and
    /// `content` and `summary` as they are.
    pub fn from_json(v: &JsonValue) -> (r: Result<ChatCompletionChoice, Error>)
        ensures
            (r matches Ok(c) && opt_view(c.id) == str_member(v@, "id"@) && opt_view(c.output_type)
                == str_member(v@, "type"@) && opt_view(c.status) == str_member(v@, "status"@)
                && opt_view(c.name) == str_member(v@, "name"@) && opt_view(c.arguments) == str_member(
                v@,
                "arguments"@,
            ) && opt_value_json(c.content) == member(v@, "content"@) && opt_value_json(c.summary)
                == member(v@, "summary"@) && opt_view(c.role) == str_member(v@, "role"@)),
    {
        Ok(ChatCompletionChoice {
            id: v.get_str("id"),
            output_type: v.get_str("type"),
            status: v.get_str("status"),
            name: v.get_str("name"),
            arguments: v.get_str("arguments"),
            content: copy_opt(v.get("content")),
            summary: copy_opt(v.get("summary")),
            role: v.get_str("role"),
        })
    }
}

impl ToJson for ChatCompletionChoice {
    open spec fn json_spec(&self) -> Json {
        Json::Object(choice_members(*self))
    }

    fn to_json(&self) -> (r: JsonValue) {
        let mut members: Vec<(String, JsonValue)> = Vec::new();
        push_opt_str(&mut members, "arguments", &self.arguments);
        let content = match &self.content {
            Some(c) => Some(c.deep_copy()),
            None => None,
        };
        push_opt(&mut members, "content", content);
        push_opt_str(&mut members, "id", &self.id);
        push_opt_str(&mut members, "name", &self.name);
        push_opt_str(&mut members, "role", &self.role);
        push_opt_str(&mut members, "status", &self.status);
        let summary = match &self.summary {
            Some(c) => Some(c.deep_copy()),
            None => None,
        };
        push_opt(&mut members, "summary", summary);
        push_opt_str(&mut members, "type", &self.output_type);
        assert(members_of(Seq::<(String, JsonValue)>::empty()) =~= Seq::<(Seq<char>, Json)>::empty());
        assert(members_of(members@) =~= choice_members(*self));
        JsonValue::Object(members)
    }
}

#[derive(Debug, Clone, PartialEq, Eq)]
pub struct Billing {
    pub payer: Option<String>,
}

impl Billing {
    pub fn from_json(v: &JsonValue) -> (r: Result<Billing, Error>)
        ensures
            (r matches Ok(b) && opt_view(b.payer) == str_member(v@, "payer"@)),
    {
        Ok(Billing { payer: v.get_str("payer") })
    }
}

impl ToJson for Billing {
    open spec fn json_spec(&self) -> Json {
        Json::Object(opt_str_member("payer"@, opt_view(self.payer)))
    }

    fn to_json(&self) -> (r: JsonValue) {
        let mut members: Vec<(String, JsonValue)> = Vec::new();
        push_opt_str(&mut members, "payer", &self.payer);
        assert(members_of(members@) =~= opt_str_member("payer"@, opt_view(self.payer)));
        JsonValue::Object(members)
    }
}

/// Request metadata; it carries no fields.
#[derive(Debug, Clone, PartialEq, Eq)]
pub struct Metadata {}

impl ToJson for Metadata {
    open spec fn json_spec(&self) -> Json {
        Json::Object(Seq::empty())
    }

    fn to_json(&self) -> (r: JsonValue) {
        let members: Vec<(String, JsonValue)> = Vec::new();
        assert(members_of(members@) =~= Seq::<(Seq<char>, Json)>::empty());
        JsonValue::Object(members)
    }
}

#[derive(Debug, Clone, PartialEq, Eq)]
pub struct Reasoning {
    pub effort: Option<String>,
    pub summary: Option<String>,
}

/// An optional string, written as `null` when absent.
pub open spec fn str_or_null(o: Option<String>) -> Json {
    match o {
        Some(s) => Json::Str(s@),
        None => Json::Null,
    }
}

fn str_or_null_to_json(o: &Option<String>) -> (r: JsonValue)
    ensures
        r@ == str_or_null(*o),
{
    match o {
        Some(s) => JsonValue::Str(s.clone()),
        None => JsonValue::Null,
    }
}

impl Reasoning {
    pub fn from_json(v: &JsonValue) -> (r: Result<Reasoning, Error>)
        ensures
            (r matches Ok(x) && opt_view(x.effort) == str_member(v@, "effort"@) && opt_view(x.summary)
                == str_member(v@, "summary"@)),
    {
        Ok(Reasoning { effort: v.get_str("effort"), summary: v.get_str("summary") })
    }
}

impl ToJson for Reasoning {
    open spec fn json_spec(&self) -> Json {
        Json::Object(seq![("effort"@, str_or_null(self.effort)), ("summary"@, str_or_null(self.summary))])
    }

    fn to_json(&self) -> (r: JsonValue) {
        let mut members: Vec<(String, JsonValue)> = Vec::new();
        push_member(&mut members, "effort", str_or_null_to_json(&self.effort));
        push_member(&mut members, "summary", str_or_null_to_json(&self.summary));
        assert(members_of(members@) =~= seq![
            ("effort"@, str_or_null(self.effort)),
            ("summary"@, str_or_null(self.summary)),
        ]);
        JsonValue::Object(members)
    }
}

#[derive(Debug, Clone, PartialEq, Eq)]
pub struct TextFormatType {
    pub format_type: Option<String>,
}

#[derive(Debug, Clone, PartialEq, Eq)]
pub struct TextFormat {
    pub format: Option<TextFormatType>,
    pub verbosity: Option<String>,
}

impl TextFormatType {
    pub fn from_json(v: &JsonValue) -> (r: Result<TextFormatType, Error>)
        ensures
            (r matches Ok(t) && opt_view(t.format_type) == str_member(v@, "type"@)),
    {
        Ok(TextFormatType { format_type: v.get_str("type") })
    }
}

impl ToJson for TextFormatType {
    open spec fn json_spec(&self) -> Json {
        Json::Object(opt_str_member("type"@, opt_view(self.format_type)))
    }

    fn to_json(&self) -> (r: JsonValue) {
        let mut members: Vec<(String, JsonValue)> = Vec::new();
        push_opt_str(&mut members, "type", &self.format_type);
        assert(members_of(members@) =~= opt_str_member("type"@, opt_view(self.format_type)));
        JsonValue::Object(members)
    }
}

impl TextFormat {
    pub fn from_json(v: &JsonValue) -> (r: Result<TextFormat, Error>)
        ensures
            (r matches Ok(t) && opt_view(t.verbosity) == str_member(v@, "verbosity"@) && match t.format {
                Some(f) => (member(v@, "format"@) matches Some(j) && opt_view(f.format_type) == str_member(
                    j,
                    "type"@,
                )),
                None => member(v@, "format"@) is None,
            }),
    {
        let format = match v.get("format") {
            Some(f) => Some(TextFormatType { format_type: f.get_str("type") }),
            None => None,
        };
        Ok(TextFormat { format, verbosity: v.get_str("verbosity") })
    }
}

impl ToJson for TextFormat {
    open spec fn json_spec(&self) -> Json {
        Json::Object(
            opt_json_member(
                "format"@,
                match self.format {
                    Some(f) => Some(f.json_spec()),
                    None => None,
                },
            ) + opt_str_member("verbosity"@, opt_view(self.verbosity)),
        )
    }

    fn to_json(&self) -> (r: JsonValue) {
        let mut members: Vec<(String, JsonValue)> = Vec::new();
        let format = match &self.format {
            Some(f) => Some(f.to_json()),
            None => None,
        };
        push_opt(&mut members, "format", format);
        push_opt_str(&mut members, "verbosity", &self.verbosity);
        assert(members_of(Seq::<(String, JsonValue)>::empty()) =~= Seq::<(Seq<char>, Json)>::empty());
        assert(members_of(members@) =~= opt_json_member(
            "format"@,
            match self.format {
                Some(f) => Some(f.json_spec()),
                None => None,
            },
        ) + opt_str_member("verbosity"@, opt_view(self.verbosity)));
        JsonValue::Object(members)
    }
}

} // verus!
