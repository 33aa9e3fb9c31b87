use vstd::prelude::*;
use vstd::string::StringExecFns;

use crate::json::{
    items_of, lemma_items_index, push_item, json_str, lookup, member, members_of, push_member, str_member, Json, JsonValue,
};
use crate::types::error::Error;
use crate::types::model_id::str_eq;
use crate::types::ToJson;

verus! {

/// The characters of an optional string.
pub open spec fn opt_view(o: Option<String>) -> Option<Seq<char>> {
    match o {
        Some(s) => Some(s@),
        None => None,
    }
}

/// A member `key` holding the string `o`, or no member when `o` is `None`.
pub open spec fn opt_str_member(key: Seq<char>, o: Option<Seq<char>>) -> Seq<(Seq<char>, Json)> {
    match o {
        Some(s) => seq![(key, Json::Str(s))],
        None => Seq::empty(),
    }
}

/// Appends `key: s` when `s` is present.
pub fn push_opt_str(members: &mut Vec<(String, JsonValue)>, key: &str, s: &Option<String>)
    ensures
        members_of(final(members)@) == members_of(old(members)@) + opt_str_member(key@, opt_view(*s)),
{
    match s {
        Some(text) => {
            push_member(members, key, JsonValue::Str(text.clone()));
        },
        None => {
            assert(members_of(members@) =~= members_of(members@) + opt_str_member(key@, opt_view(*s)));
        },
    }
}

pub proof fn lemma_lookup_concat(a: Seq<(Seq<char>, Json)>, b: Seq<(Seq<char>, Json)>, key: Seq<char>)
    ensures
        lookup(a + b, key) == match lookup(b, key) {
            Some(j) => Some(j),
            None => lookup(a, key),
        },
    decreases b.len(),
{
    if b.len() > 0 {
        assert((a + b).drop_last() =~= a + b.drop_last());
        lemma_lookup_concat(a, b.drop_last(), key);
    } else {
        assert(a + b =~= a);
    }
}

pub proof fn lemma_lookup_single(k: Seq<char>, j: Json, key: Seq<char>)
    ensures
        lookup(seq![(k, j)], key) == if k == key {
            Some(j)
        } else {
            None
        },
{
    reveal_with_fuel(lookup, 2);
    assert(seq![(k, j)].drop_last() =~= Seq::<(Seq<char>, Json)>::empty());
}

pub proof fn lemma_lookup_opt(k: Seq<char>, o: Option<Seq<char>>, key: Seq<char>)
    ensures
        lookup(opt_str_member(k, o), key) == if k == key && o is Some {
            Some(Json::Str(o->0))
        } else {
            None
        },
{
    if o is Some {
        lemma_lookup_single(k, Json::Str(o->0), key);
    }
}

/// What reading `v` as a user message gives: `content` must be a string; a `name` that
/// is no string counts as absent.
pub open spec fn user_message_read(v: Json, r: Result<UserMessage, Error>) -> bool {
    match str_member(v, "content"@) {
        Some(c) => (r matches Ok(m) && m.content@ == c && opt_view(m.name) == str_member(v, "name"@)),
        None => r == Err::<UserMessage, Error>(Error::InvalidJsonStructure),
    }
}

#[derive(Debug, Clone, PartialEq)]
pub struct UserMessage {
    pub content: String,
    pub name: Option<String>,
}

pub open spec fn role_message_json(content: Seq<char>, name: Option<Seq<char>>, role: Seq<char>) -> Json {
    Json::Object(
        seq![("content"@, Json::Str(content))] + opt_str_member("name"@, name) + seq![
            ("role"@, Json::Str(role)),
        ],
    )
}

/// Writes `{"content": .., "name": .., "role": role}`, leaving out a missing name.
fn role_message_to_json(content: &String, name: &Option<String>, role: &str) -> (r: JsonValue)
    ensures
        r@ == role_message_json(content@, opt_view(*name), role@),
{
    let mut members: Vec<(String, JsonValue)> = Vec::new();
    push_member(&mut members, "content", JsonValue::Str(content.clone()));
    push_opt_str(&mut members, "name", name);
    push_member(&mut members, "role", json_str(role));
    proof {
        assert(members_of(members@) =~= seq![("content"@, Json::Str(content@))] + opt_str_member(
            "name"@,
            opt_view(*name),
        ) + seq![("role"@, Json::Str(role@))]);
    }
    JsonValue::Object(members)
}

/// The content and name read back from a message written by `role_message_json`.
pub proof fn lemma_role_message_members(content: Seq<char>, name: Option<Seq<char>>, role: Seq<char>)
    ensures
        str_member(role_message_json(content, name, role), "content"@) == Some(content),
        str_member(role_message_json(content, name, role), "name"@) == name,
        str_member(role_message_json(content, name, role), "role"@) == Some(role),
{
    reveal_strlit("content");
    reveal_strlit("name");
    reveal_strlit("role");
    let a = seq![("content"@, Json::Str(content))];
    let b = opt_str_member("name"@, name);
    let c = seq![("role"@, Json::Str(role))];
    assert("content"@.len() == 7 && "name"@.len() == 4 && "role"@.len() == 4);
    assert("content"@ != "name"@);
    assert("content"@ != "role"@);
    assert("name"@[0] != "role"@[0]);
    assert("name"@ != "role"@);
    lemma_lookup_concat(a + b, c, "content"@);
    lemma_lookup_concat(a, b, "content"@);
    lemma_lookup_concat(a + b, c, "name"@);
    lemma_lookup_concat(a, b, "name"@);
    lemma_lookup_concat(a + b, c, "role"@);
    lemma_lookup_single("content"@, Json::Str(content), "content"@);
    lemma_lookup_single("content"@, Json::Str(content), "name"@);
    lemma_lookup_single("role"@, Json::Str(role), "content"@);
    lemma_lookup_single("role"@, Json::Str(role), "name"@);
    lemma_lookup_single("role"@, Json::Str(role), "role"@);
    lemma_lookup_opt("name"@, name, "content"@);
    lemma_lookup_opt("name"@, name, "name"@);
}

impl UserMessage {
    pub fn new(content: &str) -> (r: UserMessage)
        ensures
            r.content@ == content@,
            r.name is None,
    {
        UserMessage { content: String::from_str(content), name: None }
    }

    /// Reads a message from its JSON form: `content` must be a string; a `name` that is
    /// no string counts as absent.
    pub fn from_json(v: &JsonValue) -> (r: Result<UserMessage, Error>)
        ensures
            user_message_read(v@, r),
    {
        match v.get_str("content") {
            Some(content) => Ok(UserMessage { content, name: v.get_str("name") }),
            None => Err(Error::InvalidJsonStructure),
        }
    }
}

impl ToJson for UserMessage {
    open spec fn json_spec(&self) -> Json {
        role_message_json(self.content@, opt_view(self.name), "user"@)
    }

    fn to_json(&self) -> (r: JsonValue) {
        role_message_to_json(&self.content, &self.name, "user")
    }
}

#[derive(Debug, Clone, PartialEq)]
pub struct SystemMessage {
    pub content: String,
    pub name: Option<String>,
}

impl SystemMessage {
    pub fn new(content: &str) -> (r: SystemMessage)
        ensures
            r.content@ == content@,
            r.name is None,
    {
        SystemMessage { content: String::from_str(content), name: None }
    }

    /// Reads a message from its JSON form: `content` must be a string; a `name` that is
    /// no string counts as absent.
    pub fn from_json(v: &JsonValue) -> (r: Result<SystemMessage, Error>)
        ensures
            match str_member(v@, "content"@) {
                Some(c) => (r matches Ok(m) && m.content@ == c && opt_view(m.name) == str_member(
                    v@,
                    "name"@,
                )),
                None => r == Err::<SystemMessage, Error>(Error::InvalidJsonStructure),
            },
    {
        match v.get_str("content") {
            Some(content) => Ok(SystemMessage { content, name: v.get_str("name") }),
            None => Err(Error::InvalidJsonStructure),
        }
    }
}

impl ToJson for SystemMessage {
    open spec fn json_spec(&self) -> Json {
        role_message_json(self.content@, opt_view(self.name), "system"@)
    }

    fn to_json(&self) -> (r: JsonValue) {
        role_message_to_json(&self.content, &self.name, "system")
    }
}

/// Reading back the JSON form of a user message gives the same message.
pub proof fn lemma_user_message_round_trip(m: UserMessage)
    ensures
        str_member(m.json_spec(), "content"@) == Some(m.content@),
        str_member(m.json_spec(), "name"@) == opt_view(m.name),
        str_member(m.json_spec(), "role"@) == Some("user"@),
{
    lemma_role_message_members(m.content@, opt_view(m.name), "user"@);
}

/// Reading back the JSON form of a system message gives the same message.
pub proof fn lemma_system_message_round_trip(m: SystemMessage)
    ensures
        str_member(m.json_spec(), "content"@) == Some(m.content@),
        str_member(m.json_spec(), "name"@) == opt_view(m.name),
        str_member(m.json_spec(), "role"@) == Some("system"@),
{
    lemma_role_message_members(m.content@, opt_view(m.name), "system"@);
}


/// Distinct keys for the members written by this module.
pub proof fn lemma_keys_distinct()
    ensures
        "content"@ != "name"@,
        "content"@ != "role"@,
        "content"@ != "tool_calls"@,
        "content"@ != "tool_call_id"@,
        "name"@ != "role"@,
        "name"@ != "tool_calls"@,
        "role"@ != "tool_calls"@,
        "role"@ != "tool_call_id"@,
        "arguments"@ != "name"@,
        "function"@ != "id"@,
{
    reveal_strlit("content");
    reveal_strlit("name");
    reveal_strlit("role");
    reveal_strlit("tool_calls");
    reveal_strlit("tool_call_id");
    reveal_strlit("arguments");
    reveal_strlit("function");
    reveal_strlit("id");
    assert("content"@.len() == 7 && "name"@.len() == 4 && "role"@.len() == 4);
    assert("tool_calls"@.len() == 10 && "tool_call_id"@.len() == 12);
    assert("arguments"@.len() == 9 && "function"@.len() == 8 && "id"@.len() == 2);
    assert("name"@[0] != "role"@[0]);
}

/// What reading `v` as a tool message gives: `content` and `tool_call_id` must be strings.
pub open spec fn tool_message_read(v: Json, r: Result<ToolMessage, Error>) -> bool {
    match (str_member(v, "content"@), str_member(v, "tool_call_id"@)) {
        (Some(c), Some(id)) => (r matches Ok(m) && m.content@ == c && m.tool_call_id@ == id),
        _ => r == Err::<ToolMessage, Error>(Error::InvalidJsonStructure),
    }
}

#[derive(Debug, Clone, PartialEq)]
pub struct ToolMessage {
    pub content: String,
    pub tool_call_id: String,
}

impl ToolMessage {
    /// Reads a tool message: `content` and `tool_call_id` must be strings.
    pub fn from_json(v: &JsonValue) -> (r: Result<ToolMessage, Error>)
        ensures
            tool_message_read(v@, r),
    {
        match (v.get_str("content"), v.get_str("tool_call_id")) {
            (Some(content), Some(tool_call_id)) => Ok(ToolMessage { content, tool_call_id }),
            _ => Err(Error::InvalidJsonStructure),
        }
    }
}

impl ToJson for ToolMessage {
    open spec fn json_spec(&self) -> Json {
        Json::Object(
            seq![
                ("content"@, Json::Str(self.content@)),
                ("role"@, Json::Str("tool"@)),
                ("tool_call_id"@, Json::Str(self.tool_call_id@)),
            ],
        )
    }

    fn to_json(&self) -> (r: JsonValue) {
        let mut members: Vec<(String, JsonValue)> = Vec::new();
        push_member(&mut members, "content", JsonValue::Str(self.content.clone()));
        push_member(&mut members, "role", json_str("tool"));
        push_member(&mut members, "tool_call_id", JsonValue::Str(self.tool_call_id.clone()));
        proof {
            assert(members_of(members@) =~= seq![
                ("content"@, Json::Str(self.content@)),
                ("role"@, Json::Str("tool"@)),
                ("tool_call_id"@, Json::Str(self.tool_call_id@)),
            ]);
        }
        JsonValue::Object(members)
    }
}

/// Reading back the JSON form of a tool message gives the same message.
pub proof fn lemma_tool_message_round_trip(m: ToolMessage)
    ensures
        str_member(m.json_spec(), "content"@) == Some(m.content@),
        str_member(m.json_spec(), "tool_call_id"@) == Some(m.tool_call_id@),
        str_member(m.json_spec(), "role"@) == Some("tool"@),
{
    lemma_keys_distinct();
    reveal_with_fuel(lookup, 4);
}

#[derive(Debug, Clone, PartialEq)]
pub struct ToolFunction {
    pub name: String,
    pub arguments: String,
}

impl ToolFunction {
    /// Reads a function call: `name` and `arguments` must be strings.
    pub fn from_json(v: &JsonValue) -> (r: Result<ToolFunction, Error>)
        ensures
            match (str_member(v@, "name"@), str_member(v@, "arguments"@)) {
                (Some(n), Some(a)) => r matches Ok(f) && f.name@ == n && f.arguments@ == a,
                _ => r == Err::<ToolFunction, Error>(Error::InvalidJsonStructure),
            },
    {
        match (v.get_str("name"), v.get_str("arguments")) {
            (Some(name), Some(arguments)) => Ok(ToolFunction { name, arguments }),
            _ => Err(Error::InvalidJsonStructure),
        }
    }
}

impl ToJson for ToolFunction {
    open spec fn json_spec(&self) -> Json {
        Json::Object(
            seq![("arguments"@, Json::Str(self.arguments@)), ("name"@, Json::Str(self.name@))],
        )
    }

    fn to_json(&self) -> (r: JsonValue) {
        let mut members: Vec<(String, JsonValue)> = Vec::new();
        push_member(&mut members, "arguments", JsonValue::Str(self.arguments.clone()));
        push_member(&mut members, "name", JsonValue::Str(self.name.clone()));
        proof {
            assert(members_of(members@) =~= seq![
                ("arguments"@, Json::Str(self.arguments@)),
                ("name"@, Json::Str(self.name@)),
            ]);
        }
        JsonValue::Object(members)
    }
}

/// Reading back the JSON form of a function call gives the same call.
pub proof fn lemma_tool_function_round_trip(f: ToolFunction)
    ensures
        str_member(f.json_spec(), "name"@) == Some(f.name@),
        str_member(f.json_spec(), "arguments"@) == Some(f.arguments@),
{
    lemma_keys_distinct();
    reveal_with_fuel(lookup, 3);
}

#[derive(Debug, Clone, PartialEq)]
pub struct ToolCall {
    pub id: String,
    pub function: ToolFunction,
}

/// What reading `j` as a tool call yields: the id and the function's name and arguments.
pub open spec fn tool_call_fields(j: Json) -> Option<(Seq<char>, Seq<char>, Seq<char>)> {
    match (str_member(j, "id"@), member(j, "function"@)) {
        (Some(id), Some(f)) => match (str_member(f, "name"@), str_member(f, "arguments"@)) {
            (Some(n), Some(a)) => Some((id, n, a)),
            _ => None,
        },
        _ => None,
    }
}

pub open spec fn tool_call_view(t: ToolCall) -> (Seq<char>, Seq<char>, Seq<char>) {
    (t.id@, t.function.name@, t.function.arguments@)
}

impl ToolCall {
    /// Reads a tool call: a string `id` and a `function` with string `name` and `arguments`.
    pub fn from_json(v: &JsonValue) -> (r: Result<ToolCall, Error>)
        ensures
            match tool_call_fields(v@) {
                Some(fields) => r matches Ok(t) && tool_call_view(t) == fields,
                None => r == Err::<ToolCall, Error>(Error::InvalidJsonStructure),
            },
    {
        let id = match v.get_str("id") {
            Some(id) => id,
            None => return Err(Error::InvalidJsonStructure),
        };
        match v.get("function") {
            Some(f) => match ToolFunction::from_json(f) {
                Ok(function) => Ok(ToolCall { id, function }),
                Err(e) => Err(e),
            },
            None => Err(Error::InvalidJsonStructure),
        }
    }
}

impl ToJson for ToolCall {
    open spec fn json_spec(&self) -> Json {
        Json::Object(seq![("function"@, self.function.json_spec()), ("id"@, Json::Str(self.id@))])
    }

    fn to_json(&self) -> (r: JsonValue) {
        let mut members: Vec<(String, JsonValue)> = Vec::new();
        push_member(&mut members, "function", self.function.to_json());
        push_member(&mut members, "id", JsonValue::Str(self.id.clone()));
        proof {
            assert(members_of(members@) =~= seq![
                ("function"@, self.function.json_spec()),
                ("id"@, Json::Str(self.id@)),
            ]);
        }
        JsonValue::Object(members)
    }
}

/// Reading back the JSON form of a tool call gives the same call.
pub proof fn lemma_tool_call_round_trip(t: ToolCall)
    ensures
        tool_call_fields(t.json_spec()) == Some(tool_call_view(t)),
{
    lemma_keys_distinct();
    lemma_tool_function_round_trip(t.function);
    reveal_with_fuel(lookup, 3);
}


pub open spec fn tool_calls_json(ts: Seq<ToolCall>) -> Seq<Json> {
    ts.map_values(|t: ToolCall| t.json_spec())
}

/// The JSON array of some tool calls.
pub fn tool_calls_to_json(ts: &Vec<ToolCall>) -> (r: JsonValue)
    ensures
        r@ == Json::Array(tool_calls_json(ts@)),
{
    let mut items: Vec<JsonValue> = Vec::new();
    let mut i: usize = 0;
    while i < ts.len()
        invariant
            i <= ts.len(),
            items_of(items@) == tool_calls_json(ts@.take(i as int)),
        decreases ts.len() - i,
    {
        push_item(&mut items, ts[i].to_json());
        i = i + 1;
        proof {
            assert(tool_calls_json(ts@.take(i as int)) =~= tool_calls_json(ts@.take(i - 1)).push(
                ts@[i - 1].json_spec(),
            ));
        }
    }
    proof {
        assert(ts@.take(ts.len() as int) =~= ts@);
    }
    JsonValue::Array(items)
}

/// Whether every element of `items` reads as a tool call.
pub open spec fn all_tool_calls(items: Seq<Json>) -> bool {
    forall|i: int| 0 <= i < items.len() ==> (#[trigger] tool_call_fields(items[i])) is Some
}

/// `ts` holds, in order, the tool calls read from `items`.
pub open spec fn read_tool_calls(items: Seq<Json>, ts: Seq<ToolCall>) -> bool {
    &&& ts.len() == items.len()
    &&& forall|i: int|
        0 <= i < items.len() ==> Some(tool_call_view(#[trigger] ts[i])) == tool_call_fields(items[i])
}

/// Reads an array of tool calls; fails on the first element that is no tool call.
pub fn tool_calls_from_json(items: &Vec<JsonValue>) -> (r: Result<Vec<ToolCall>, Error>)
    ensures
        all_tool_calls(items_of(items@)) ==> (r matches Ok(ts) && read_tool_calls(items_of(items@), ts@)),
        !all_tool_calls(items_of(items@)) ==> r == Err::<Vec<ToolCall>, Error>(Error::InvalidJsonStructure),
{
    let mut ts: Vec<ToolCall> = Vec::new();
    let mut i: usize = 0;
    while i < items.len()
        invariant
            i <= items.len(),
            ts@.len() == i,
            forall|k: int| 0 <= k < i ==> Some(tool_call_view(#[trigger] ts@[k])) == tool_call_fields(items_of(items@)[k]),
        decreases items.len() - i,
    {
        proof {
            lemma_items_index(items@, i as int);
        }
        match ToolCall::from_json(&items[i]) {
            Ok(t) => {
                ts.push(t);
            },
            Err(e) => {
                return Err(e);
            },
        }
        i = i + 1;
    }
    proof {
        crate::json::lemma_items_len(items@);
        assert forall|k: int| 0 <= k < items_of(items@).len() implies (#[trigger] tool_call_fields(
            items_of(items@)[k],
        )) is Some by {
            assert(Some(tool_call_view(ts@[k])) == tool_call_fields(items_of(items@)[k]));
        }
    }
    Ok(ts)
}

/// What reading `v` as an assistant message gives. `content` and `name` are kept when
/// they are strings; `tool_calls`, when it is an array, must hold tool calls only.
pub open spec fn assistant_message_read(v: Json, r: Result<AssistantMessage, Error>) -> bool {
    match member(v, "tool_calls"@) {
        Some(Json::Array(items)) => {
            &&& all_tool_calls(items) ==> (r matches Ok(m) && opt_view(m.content) == str_member(
                v,
                "content"@,
            ) && opt_view(m.name) == str_member(v, "name"@) && (m.tool_calls matches Some(ts)
                && read_tool_calls(items, ts@)))
            &&& !all_tool_calls(items) ==> r == Err::<AssistantMessage, Error>(
                Error::InvalidJsonStructure,
            )
        },
        _ => (r matches Ok(m) && opt_view(m.content) == str_member(v, "content"@) && opt_view(m.name)
            == str_member(v, "name"@) && m.tool_calls is None),
    }
}

#[derive(Debug, Clone, PartialEq)]
pub struct AssistantMessage {
    pub content: Option<String>,
    pub name: Option<String>,
    pub tool_calls: Option<Vec<ToolCall>>,
}

pub open spec fn tool_calls_member(o: Option<Vec<ToolCall>>) -> Seq<(Seq<char>, Json)> {
    match o {
        Some(ts) => seq![("tool_calls"@, Json::Array(tool_calls_json(ts@)))],
        None => Seq::empty(),
    }
}

impl AssistantMessage {
    /// Reads an assistant message. `content` and `name` are kept when they are strings;
    /// `tool_calls`, when it is an array, must hold tool calls only.
    pub fn from_json(v: &JsonValue) -> (r: Result<AssistantMessage, Error>)
        ensures
            assistant_message_read(v@, r),
    {
        let tool_calls = match v.get("tool_calls") {
            Some(JsonValue::Array(items)) => match tool_calls_from_json(items) {
                Ok(ts) => Some(ts),
                Err(e) => {
                    return Err(e);
                },
            },
            _ => None,
        };
        Ok(AssistantMessage { content: v.get_str("content"), name: v.get_str("name"), tool_calls })
    }
}

impl ToJson for AssistantMessage {
    open spec fn json_spec(&self) -> Json {
        Json::Object(
            opt_str_member("content"@, opt_view(self.content)) + opt_str_member(
                "name"@,
                opt_view(self.name),
            ) + seq![("role"@, Json::Str("assistant"@))] + tool_calls_member(self.tool_calls),
        )
    }

    fn to_json(&self) -> (r: JsonValue) {
        let mut members: Vec<(String, JsonValue)> = Vec::new();
        push_opt_str(&mut members, "content", &self.content);
        push_opt_str(&mut members, "name", &self.name);
        push_member(&mut members, "role", json_str("assistant"));
        match &self.tool_calls {
            Some(ts) => {
                push_member(&mut members, "tool_calls", tool_calls_to_json(ts));
            },
            None => {},
        }
        proof {
            assert(members_of(members@) =~= opt_str_member("content"@, opt_view(self.content))
                + opt_str_member("name"@, opt_view(self.name)) + seq![
                ("role"@, Json::Str("assistant"@)),
            ] + tool_calls_member(self.tool_calls));
        }
        JsonValue::Object(members)
    }
}

/// Reading back the JSON form of an assistant message gives the same message.
pub proof fn lemma_assistant_message_round_trip(m: AssistantMessage)
    ensures
        str_member(m.json_spec(), "content"@) == opt_view(m.content),
        str_member(m.json_spec(), "name"@) == opt_view(m.name),
        str_member(m.json_spec(), "role"@) == Some("assistant"@),
        match m.tool_calls {
            Some(ts) => member(m.json_spec(), "tool_calls"@) == Some(Json::Array(tool_calls_json(ts@)))
                && all_tool_calls(tool_calls_json(ts@)) && read_tool_calls(tool_calls_json(ts@), ts@),
            None => member(m.json_spec(), "tool_calls"@) is None,
        },
{
    lemma_keys_distinct();
    let a = opt_str_member("content"@, opt_view(m.content));
    let b = opt_str_member("name"@, opt_view(m.name));
    let c = seq![("role"@, Json::Str("assistant"@))];
    let d = tool_calls_member(m.tool_calls);
    let keys = seq!["content"@, "name"@, "role"@, "tool_calls"@];
    assert forall|i: int| 0 <= i < keys.len() implies lookup(a + b + c + d, #[trigger] keys[i]) == match lookup(d, keys[i]) {
        Some(j) => Some(j),
        None => match lookup(c, keys[i]) {
            Some(j) => Some(j),
            None => match lookup(b, keys[i]) {
                Some(j) => Some(j),
                None => lookup(a, keys[i]),
            },
        },
    } by {
        lemma_lookup_concat(a + b + c, d, keys[i]);
        lemma_lookup_concat(a + b, c, keys[i]);
        lemma_lookup_concat(a, b, keys[i]);
    }
    assert(keys[0] == "content"@ && keys[1] == "name"@ && keys[2] == "role"@ && keys[3] == "tool_calls"@);
    lemma_lookup_opt("content"@, opt_view(m.content), "content"@);
    lemma_lookup_opt("content"@, opt_view(m.content), "name"@);
    lemma_lookup_opt("content"@, opt_view(m.content), "role"@);
    lemma_lookup_opt("content"@, opt_view(m.content), "tool_calls"@);
    lemma_lookup_opt("name"@, opt_view(m.name), "content"@);
    lemma_lookup_opt("name"@, opt_view(m.name), "name"@);
    lemma_lookup_opt("name"@, opt_view(m.name), "role"@);
    lemma_lookup_opt("name"@, opt_view(m.name), "tool_calls"@);
    lemma_lookup_single("role"@, Json::Str("assistant"@), "content"@);
    lemma_lookup_single("role"@, Json::Str("assistant"@), "name"@);
    lemma_lookup_single("role"@, Json::Str("assistant"@), "role"@);
    lemma_lookup_single("role"@, Json::Str("assistant"@), "tool_calls"@);
    match m.tool_calls {
        Some(ts) => {
            let j = Json::Array(tool_calls_json(ts@));
            lemma_lookup_single("tool_calls"@, j, "content"@);
            lemma_lookup_single("tool_calls"@, j, "name"@);
            lemma_lookup_single("tool_calls"@, j, "role"@);
            lemma_lookup_single("tool_calls"@, j, "tool_calls"@);
            assert forall|i: int| 0 <= i < ts@.len() implies tool_call_fields(
                #[trigger] tool_calls_json(ts@)[i],
            ) == Some(tool_call_view(ts@[i])) by {
                lemma_tool_call_round_trip(ts@[i]);
            }
        },
        None => {},
    }
}

#[derive(Debug, Clone, PartialEq)]
pub enum Message {
    UserMessage(UserMessage),
    AssistantMessage(AssistantMessage),
    ToolMessage(ToolMessage),
}

pub open spec fn role_of(m: Message) -> Seq<char> {
    match m {
        Message::UserMessage(_) => "user"@,
        Message::AssistantMessage(_) => "assistant"@,
        Message::ToolMessage(_) => "tool"@,
    }
}

/// What reading `v` as a message gives: its `role` picks the kind of message.
pub open spec fn message_read(v: Json, r: Result<Message, Error>) -> bool {
    let role = str_member(v, "role"@);
    if role == Some("assistant"@) {
        match r {
            Ok(Message::AssistantMessage(m)) => assistant_message_read(v, Ok(m)),
            Ok(_) => false,
            Err(e) => assistant_message_read(v, Err(e)),
        }
    } else if role == Some("user"@) {
        match r {
            Ok(Message::UserMessage(m)) => user_message_read(v, Ok(m)),
            Ok(_) => false,
            Err(e) => user_message_read(v, Err(e)),
        }
    } else if role == Some("tool"@) {
        match r {
            Ok(Message::ToolMessage(m)) => tool_message_read(v, Ok(m)),
            Ok(_) => false,
            Err(e) => tool_message_read(v, Err(e)),
        }
    } else {
        r == Err::<Message, Error>(Error::InvalidJsonStructure)
    }
}

impl Message {
    pub fn role_as_string(&self) -> (r: String)
        ensures
            r@ == role_of(*self),
    {
        match self {
            Message::UserMessage(_) => String::from_str("user"),
            Message::AssistantMessage(_) => String::from_str("assistant"),
            Message::ToolMessage(_) => String::from_str("tool"),
        }
    }

    pub fn user_message(content: &str) -> (r: Message)
        ensures
            r matches Message::UserMessage(u) && u.content@ == content@ && u.name is None,
    {
        Message::UserMessage(UserMessage::new(content))
    }

    pub fn as_assistant_message(&self) -> (r: Option<&AssistantMessage>)
        ensures
            match self {
                Message::AssistantMessage(a) => r == Some(a),
                _ => r is None,
            },
    {
        match self {
            Message::AssistantMessage(a) => Some(a),
            _ => None,
        }
    }

    pub fn to_assistant_message(self) -> (r: Option<AssistantMessage>)
        ensures
            match self {
                Message::AssistantMessage(a) => r == Some(a),
                _ => r is None,
            },
    {
        match self {
            Message::AssistantMessage(a) => Some(a),
            _ => None,
        }
    }

    /// Reads a message by its `role`: `assistant`, `user` or `tool`.
    pub fn from_json(v: &JsonValue) -> (r: Result<Message, Error>)
        ensures
            message_read(v@, r),
    {
        let role = match v.get_str("role") {
            Some(role) => role,
            None => return Err(Error::InvalidJsonStructure),
        };
        if str_eq(role.as_str(), "assistant") {
            match AssistantMessage::from_json(v) {
                Ok(m) => Ok(Message::AssistantMessage(m)),
                Err(e) => Err(e),
            }
        } else if str_eq(role.as_str(), "user") {
            match UserMessage::from_json(v) {
                Ok(m) => Ok(Message::UserMessage(m)),
                Err(e) => Err(e),
            }
        } else if str_eq(role.as_str(), "tool") {
            match ToolMessage::from_json(v) {
                Ok(m) => Ok(Message::ToolMessage(m)),
                Err(e) => Err(e),
            }
        } else {
            Err(Error::InvalidJsonStructure)
        }
    }
}

impl ToJson for Message {
    open spec fn json_spec(&self) -> Json {
        match self {
            Message::UserMessage(m) => m.json_spec(),
            Message::AssistantMessage(m) => m.json_spec(),
            Message::ToolMessage(m) => m.json_spec(),
        }
    }

    fn to_json(&self) -> (r: JsonValue) {
        match self {
            Message::UserMessage(m) => m.to_json(),
            Message::AssistantMessage(m) => m.to_json(),
            Message::ToolMessage(m) => m.to_json(),
        }
    }
}

/// The JSON form of a message names its role, which is how it is read back.
pub proof fn lemma_message_role(m: Message)
    ensures
        str_member(m.json_spec(), "role"@) == Some(role_of(m)),
{
    match m {
        Message::UserMessage(u) => lemma_user_message_round_trip(u),
        Message::AssistantMessage(a) => lemma_assistant_message_round_trip(a),
        Message::ToolMessage(t) => lemma_tool_message_round_trip(t),
    }
}


/// Whether `v` reads as a message.
pub open spec fn message_decodable(v: Json) -> bool {
    let role = str_member(v, "role"@);
    if role == Some("assistant"@) {
        match member(v, "tool_calls"@) {
            Some(Json::Array(items)) => all_tool_calls(items),
            _ => true,
        }
    } else if role == Some("user"@) {
        str_member(v, "content"@) is Some
    } else if role == Some("tool"@) {
        str_member(v, "content"@) is Some && str_member(v, "tool_call_id"@) is Some
    } else {
        false
    }
}

/// Every failure to read a message is an invalid structure.
pub proof fn lemma_message_error(v: Json, r: Result<Message, Error>)
    requires
        message_read(v, r),
    ensures
        r matches Err(e) ==> e == Error::InvalidJsonStructure,
{
}

/// Reading a message succeeds exactly on the values that read as messages.
pub proof fn lemma_message_decodable(v: Json, r: Result<Message, Error>)
    requires
        message_read(v, r),
    ensures
        r is Ok <==> message_decodable(v),
{
}

} // verus!
