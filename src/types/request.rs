use vstd::prelude::*;
use vstd::string::StringExecFns;

use crate::json::{
    items_of, json_str, lemma_items_index, lemma_items_len, lookup, member, member_or_null,
    members_of, push_item, push_member, str_member, Json, JsonValue,
};
use crate::types::error::Error;
use crate::types::message::{
    lemma_lookup_concat, lemma_message_decodable, lemma_message_error,
    message_decodable, message_read,
    opt_str_member, opt_view, push_opt_str, Message,
};
use crate::types::model_id::{str_eq, ModelId};
use crate::types::ToJson;

verus! {

/// `null` reads as no string, a string as itself; anything else is refused.
pub open spec fn opt_string_of(j: Json) -> Result<Option<Seq<char>>, Error> {
    match j {
        Json::Null => Ok(None),
        Json::Str(s) => Ok(Some(s)),
        _ => Err(Error::JsonExpectedString),
    }
}

/// `null` reads as no flag, a boolean as itself; anything else is refused.
pub open spec fn opt_bool_of(j: Json) -> Result<Option<bool>, Error> {
    match j {
        Json::Null => Ok(None),
        Json::Bool(b) => Ok(Some(b)),
        _ => Err(Error::JsonExpectedBool),
    }
}

pub open spec fn opt_string_view(r: Result<Option<String>, Error>) -> Result<Option<Seq<char>>, Error> {
    match r {
        Ok(o) => Ok(opt_view(o)),
        Err(e) => Err(e),
    }
}

/// Reads the member `key` as an optional string; a missing member counts as `null`.
pub fn opt_string_member(v: &JsonValue, key: &str) -> (r: Result<Option<String>, Error>)
    ensures
        opt_string_view(r) == opt_string_of(member_or_null(v@, key@)),
{
    match v.get(key) {
        None => Ok(None),
        Some(JsonValue::Null) => Ok(None),
        Some(JsonValue::Str(s)) => Ok(Some(s.clone())),
        Some(_) => Err(Error::JsonExpectedString),
    }
}

/// Reads the member `key` as an optional flag; a missing member counts as `null`.
pub fn opt_bool_member(v: &JsonValue, key: &str) -> (r: Result<Option<bool>, Error>)
    ensures
        r == opt_bool_of(member_or_null(v@, key@)),
{
    match v.get(key) {
        None => Ok(None),
        Some(JsonValue::Null) => Ok(None),
        Some(JsonValue::Bool(b)) => Ok(Some(*b)),
        Some(_) => Err(Error::JsonExpectedBool),
    }
}

/// A JSON schema, held as the value it is written as.
#[derive(Debug, Clone, PartialEq)]
pub struct JSONSchema(pub JsonValue);

impl JSONSchema {
    /// Any value is taken as a schema.
    pub fn from_json(v: &JsonValue) -> (r: Result<JSONSchema, Error>)
        ensures
            r matches Ok(s) && s.0@ == v@,
    {
        Ok(JSONSchema(v.deep_copy()))
    }
}

impl ToJson for JSONSchema {
    open spec fn json_spec(&self) -> Json {
        self.0@
    }

    fn to_json(&self) -> (r: JsonValue) {
        self.0.deep_copy()
    }
}

/// The properties of a JSON-schema response format.
#[derive(Debug, Clone, PartialEq)]
pub struct JsonSchemaProp {
    pub name: String,
    pub description: Option<String>,
    pub schema: JSONSchema,
    pub strict: Option<bool>,
}

pub open spec fn opt_bool_member_json(key: Seq<char>, o: Option<bool>) -> Seq<(Seq<char>, Json)> {
    match o {
        Some(b) => seq![(key, Json::Bool(b))],
        None => Seq::empty(),
    }
}

/// What reading `v` as schema properties gives: a string `name`, an optional string
/// `description`, the `schema` (`null` when missing) and an optional boolean `strict`.
pub open spec fn schema_prop_read(v: Json, r: Result<JsonSchemaProp, Error>) -> bool {
    match str_member(v, "name"@) {
        None => r == Err::<JsonSchemaProp, Error>(Error::JsonExpectedString),
        Some(n) => match opt_string_of(member_or_null(v, "description"@)) {
            Err(e) => r == Err::<JsonSchemaProp, Error>(e),
            Ok(d) => match opt_bool_of(member_or_null(v, "strict"@)) {
                Err(e) => r == Err::<JsonSchemaProp, Error>(e),
                Ok(st) => (r matches Ok(p) && p.name@ == n && opt_view(p.description) == d
                    && p.schema.0@ == member_or_null(v, "schema"@) && p.strict == st),
            },
        },
    }
}

impl JsonSchemaProp {
    pub fn from_json(v: &JsonValue) -> (r: Result<JsonSchemaProp, Error>)
        ensures
            schema_prop_read(v@, r),
    {
        let name = match v.get_str("name") {
            Some(n) => n,
            None => return Err(Error::JsonExpectedString),
        };
        let description = match opt_string_member(v, "description") {
            Ok(d) => d,
            Err(e) => return Err(e),
        };
        let strict = match opt_bool_member(v, "strict") {
            Ok(s) => s,
            Err(e) => return Err(e),
        };
        let schema = match v.get("schema") {
            Some(s) => JSONSchema(s.deep_copy()),
            None => JSONSchema(JsonValue::Null),
        };
        Ok(JsonSchemaProp { name, description, schema, strict })
    }
}

impl ToJson for JsonSchemaProp {
    open spec fn json_spec(&self) -> Json {
        Json::Object(
            opt_str_member("description"@, opt_view(self.description)) + seq![
                ("name"@, Json::Str(self.name@)),
                ("schema"@, self.schema.0@),
            ] + opt_bool_member_json("strict"@, self.strict),
        )
    }

    fn to_json(&self) -> (r: JsonValue) {
        let mut members: Vec<(String, JsonValue)> = Vec::new();
        push_opt_str(&mut members, "description", &self.description);
        push_member(&mut members, "name", JsonValue::Str(self.name.clone()));
        push_member(&mut members, "schema", self.schema.to_json());
        match self.strict {
            Some(b) => {
                push_member(&mut members, "strict", JsonValue::Bool(b));
            },
            None => {},
        }
        proof {
            assert(members_of(members@) =~= opt_str_member("description"@, opt_view(self.description))
                + seq![("name"@, Json::Str(self.name@)), ("schema"@, self.schema.0@)]
                + opt_bool_member_json("strict"@, self.strict));
        }
        JsonValue::Object(members)
    }
}

pub proof fn lemma_prop_keys_distinct()
    ensures
        "description"@ != "name"@,
        "description"@ != "schema"@,
        "description"@ != "strict"@,
        "name"@ != "schema"@,
        "name"@ != "strict"@,
        "schema"@ != "strict"@,
        "type"@ != "json_schema"@,
{
    reveal_strlit("description");
    reveal_strlit("name");
    reveal_strlit("schema");
    reveal_strlit("strict");
    reveal_strlit("type");
    reveal_strlit("json_schema");
    assert("description"@.len() == 11 && "name"@.len() == 4 && "schema"@.len() == 6);
    assert("strict"@.len() == 6 && "schema"@[1] != "strict"@[1]);
    assert("type"@.len() == 4 && "json_schema"@.len() == 11);
}

/// Reading back the JSON form of schema properties gives the same properties.
pub proof fn lemma_schema_prop_round_trip(p: JsonSchemaProp)
    ensures
        schema_prop_read(p.json_spec(), Ok(p)),
{
    lemma_prop_keys_distinct();
    let a = opt_str_member("description"@, opt_view(p.description));
    let b = seq![("name"@, Json::Str(p.name@)), ("schema"@, p.schema.0@)];
    let c = opt_bool_member_json("strict"@, p.strict);
    let keys = seq!["description"@, "name"@, "schema"@, "strict"@];
    assert forall|i: int| 0 <= i < keys.len() implies lookup(a + b + c, #[trigger] keys[i]) == match lookup(c, keys[i]) {
        Some(j) => Some(j),
        None => match lookup(b, keys[i]) {
            Some(j) => Some(j),
            None => lookup(a, keys[i]),
        },
    } by {
        lemma_lookup_concat(a + b, c, keys[i]);
        lemma_lookup_concat(a, b, keys[i]);
    }
    assert(keys[0] == "description"@ && keys[1] == "name"@ && keys[2] == "schema"@ && keys[3] == "strict"@);
    reveal_with_fuel(lookup, 3);
}

#[derive(Debug, Clone, PartialEq)]
pub enum ResponseFormat {
    JSON,
    Text,
    JsonSchema(JsonSchemaProp),
}

/// What reading `v` as a response format gives, by its `type`.
pub open spec fn response_format_read(v: Json, r: Result<ResponseFormat, Error>) -> bool {
    let t = str_member(v, "type"@);
    if t == Some("json_object"@) {
        r matches Ok(ResponseFormat::JSON)
    } else if t == Some("text"@) {
        r matches Ok(ResponseFormat::Text)
    } else if t == Some("json_schema"@) {
        match r {
            Ok(ResponseFormat::JsonSchema(p)) => schema_prop_read(member_or_null(v, "json_schema"@), Ok(p)),
            Ok(_) => false,
            Err(e) => schema_prop_read(member_or_null(v, "json_schema"@), Err(e)),
        }
    } else {
        r == Err::<ResponseFormat, Error>(Error::InvalidResponseFormat)
    }
}

impl ResponseFormat {
    pub fn from_json(v: &JsonValue) -> (r: Result<ResponseFormat, Error>)
        ensures
            response_format_read(v@, r),
    {
        let t = match v.get_str("type") {
            Some(t) => t,
            None => return Err(Error::InvalidResponseFormat),
        };
        if str_eq(t.as_str(), "json_object") {
            Ok(ResponseFormat::JSON)
        } else if str_eq(t.as_str(), "text") {
            Ok(ResponseFormat::Text)
        } else if str_eq(t.as_str(), "json_schema") {
            let prop = match v.get("json_schema") {
                Some(p) => JsonSchemaProp::from_json(p),
                None => JsonSchemaProp::from_json(&JsonValue::Null),
            };
            match prop {
                Ok(p) => Ok(ResponseFormat::JsonSchema(p)),
                Err(e) => Err(e),
            }
        } else {
            Err(Error::InvalidResponseFormat)
        }
    }
}

impl ToJson for ResponseFormat {
    open spec fn json_spec(&self) -> Json {
        match self {
            ResponseFormat::JSON => Json::Object(seq![("type"@, Json::Str("json_object"@))]),
            ResponseFormat::Text => Json::Object(seq![("type"@, Json::Str("text"@))]),
            ResponseFormat::JsonSchema(p) => Json::Object(
                seq![("json_schema"@, p.json_spec()), ("type"@, Json::Str("json_schema"@))],
            ),
        }
    }

    fn to_json(&self) -> (r: JsonValue) {
        let mut members: Vec<(String, JsonValue)> = Vec::new();
        match self {
            ResponseFormat::JSON => {
                push_member(&mut members, "type", json_str("json_object"));
                assert(members_of(members@) =~= seq![("type"@, Json::Str("json_object"@))]);
            },
            ResponseFormat::Text => {
                push_member(&mut members, "type", json_str("text"));
                assert(members_of(members@) =~= seq![("type"@, Json::Str("text"@))]);
            },
            ResponseFormat::JsonSchema(p) => {
                push_member(&mut members, "json_schema", p.to_json());
                push_member(&mut members, "type", json_str("json_schema"));
                assert(members_of(members@) =~= seq![
                    ("json_schema"@, p.json_spec()),
                    ("type"@, Json::Str("json_schema"@)),
                ]);
            },
        }
        JsonValue::Object(members)
    }
}

/// Reading back the JSON form of a response format gives the same format.
pub proof fn lemma_response_format_round_trip(f: ResponseFormat)
    ensures
        response_format_read(f.json_spec(), Ok(f)),
{
    lemma_prop_keys_distinct();
    reveal_strlit("json_object");
    reveal_strlit("text");
    reveal_strlit("json_schema");
    assert("json_object"@.len() == 11 && "text"@.len() == 4);
    assert("json_object"@[5] != "json_schema"@[5]);
    reveal_with_fuel(lookup, 3);
    match f {
        ResponseFormat::JsonSchema(p) => lemma_schema_prop_round_trip(p),
        _ => {},
    }
}

#[derive(Debug, Clone, PartialEq, Eq)]
pub enum ToolChoice {
    Auto,
}

impl ToolChoice {
    pub fn from_json(v: &JsonValue) -> (r: Result<ToolChoice, Error>)
        ensures
            v@ == Json::Str("auto"@) ==> r == Ok::<ToolChoice, Error>(ToolChoice::Auto),
            v@ != Json::Str("auto"@) ==> r == Err::<ToolChoice, Error>(Error::InvalidToolChoice),
    {
        match v.as_str() {
            Some(s) => if str_eq(s.as_str(), "auto") {
                Ok(ToolChoice::Auto)
            } else {
                Err(Error::InvalidToolChoice)
            },
            None => Err(Error::InvalidToolChoice),
        }
    }
}

impl ToJson for ToolChoice {
    open spec fn json_spec(&self) -> Json {
        Json::Str("auto"@)
    }

    fn to_json(&self) -> (r: JsonValue) {
        json_str("auto")
    }
}


#[derive(Debug, Clone, PartialEq)]
pub struct Tool {
    pub description: Option<String>,
    pub name: String,
    pub parameters: Option<JSONSchema>,
}

pub open spec fn opt_json_member(key: Seq<char>, o: Option<Json>) -> Seq<(Seq<char>, Json)> {
    match o {
        Some(j) => seq![(key, j)],
        None => Seq::empty(),
    }
}

pub open spec fn opt_schema_json(o: Option<JSONSchema>) -> Option<Json> {
    match o {
        Some(s) => Some(s.0@),
        None => None,
    }
}

/// A missing description is written as `null`.
pub open spec fn description_json(d: Option<String>) -> Json {
    match d {
        Some(s) => Json::Str(s@),
        None => Json::Null,
    }
}

/// What reading `v` as a tool gives: `function` must be an object with a string `name`;
/// its `description`, when present, must be a string or `null`.
pub open spec fn tool_read(v: Json, r: Result<Tool, Error>) -> bool {
    match member(v, "function"@) {
        Some(f) => f is Object && match match member(f, "description"@) {
            Some(d) => opt_string_of(d),
            None => Ok(None),
        } {
            Err(e) => r == Err::<Tool, Error>(e),
            Ok(d) => match str_member(f, "name"@) {
                None => r == Err::<Tool, Error>(Error::InvalidJsonStructure),
                Some(n) => (r matches Ok(t) && opt_view(t.description) == d && t.name@ == n
                    && opt_schema_json(t.parameters) == member(f, "parameters"@)),
            },
        } || !(f is Object) && r == Err::<Tool, Error>(Error::InvalidJsonStructure),
        None => r == Err::<Tool, Error>(Error::InvalidJsonStructure),
    }
}

impl Tool {
    pub fn from_json(v: &JsonValue) -> (r: Result<Tool, Error>)
        ensures
            tool_read(v@, r),
    {
        let f = match v.get("function") {
            Some(f) => f,
            None => return Err(Error::InvalidJsonStructure),
        };
        match f {
            JsonValue::Object(_) => {},
            _ => return Err(Error::InvalidJsonStructure),
        }
        let description = match f.get("description") {
            Some(JsonValue::Null) => None,
            Some(JsonValue::Str(d)) => Some(d.clone()),
            Some(_) => return Err(Error::JsonExpectedString),
            None => None,
        };
        let name = match f.get_str("name") {
            Some(n) => n,
            None => return Err(Error::InvalidJsonStructure),
        };
        let parameters = match f.get("parameters") {
            Some(p) => Some(JSONSchema(p.deep_copy())),
            None => None,
        };
        Ok(Tool { description, name, parameters })
    }
}

impl ToJson for Tool {
    open spec fn json_spec(&self) -> Json {
        Json::Object(
            seq![
                ("function"@, Json::Object(
                    seq![
                        ("description"@, description_json(self.description)),
                        ("name"@, Json::Str(self.name@)),
                    ] + opt_json_member("parameters"@, opt_schema_json(self.parameters)),
                )),
                ("type"@, Json::Str("function"@)),
            ],
        )
    }

    fn to_json(&self) -> (r: JsonValue) {
        let mut function: Vec<(String, JsonValue)> = Vec::new();
        let description = match &self.description {
            Some(d) => JsonValue::Str(d.clone()),
            None => JsonValue::Null,
        };
        push_member(&mut function, "description", description);
        push_member(&mut function, "name", JsonValue::Str(self.name.clone()));
        match &self.parameters {
            Some(p) => {
                push_member(&mut function, "parameters", p.to_json());
            },
            None => {},
        }
        proof {
            assert(members_of(function@) =~= seq![
                ("description"@, description_json(self.description)),
                ("name"@, Json::Str(self.name@)),
            ] + opt_json_member("parameters"@, opt_schema_json(self.parameters)));
        }
        let mut members: Vec<(String, JsonValue)> = Vec::new();
        push_member(&mut members, "function", JsonValue::Object(function));
        push_member(&mut members, "type", json_str("function"));
        proof {
            assert(members_of(members@) =~= seq![
                ("function"@, Json::Object(
                    seq![
                        ("description"@, description_json(self.description)),
                        ("name"@, Json::Str(self.name@)),
                    ] + opt_json_member("parameters"@, opt_schema_json(self.parameters)),
                )),
                ("type"@, Json::Str("function"@)),
            ]);
        }
        JsonValue::Object(members)
    }
}

/// Reading back the JSON form of a tool gives the same tool.
pub proof fn lemma_tool_round_trip(t: Tool)
    ensures
        tool_read(t.json_spec(), Ok(t)),
{
    reveal_strlit("function");
    reveal_strlit("type");
    reveal_strlit("description");
    reveal_strlit("name");
    reveal_strlit("parameters");
    assert("function"@.len() == 8 && "type"@.len() == 4);
    assert("description"@.len() == 11 && "name"@.len() == 4 && "parameters"@.len() == 10);
    let a = seq![("description"@, description_json(t.description)), ("name"@, Json::Str(t.name@))];
    let b = opt_json_member("parameters"@, opt_schema_json(t.parameters));
    lemma_lookup_concat(a, b, "description"@);
    lemma_lookup_concat(a, b, "name"@);
    lemma_lookup_concat(a, b, "parameters"@);
    reveal_with_fuel(lookup, 3);
}

#[derive(Debug, Clone, PartialEq)]
pub struct ChatRequest {
    pub model: ModelId,
    pub input: Vec<Message>,
    pub instructions: Option<String>,
    pub response_format: Option<ResponseFormat>,
    pub seed: Option<i64>,
    pub store: Option<bool>,
    pub tools: Option<Vec<Tool>>,
    pub tool_choice: Option<ToolChoice>,
    pub previous_response_id: Option<String>,
}

pub open spec fn messages_json(ms: Seq<Message>) -> Seq<Json> {
    ms.map_values(|m: Message| m.json_spec())
}

pub open spec fn tools_json(ts: Seq<Tool>) -> Seq<Json> {
    ts.map_values(|t: Tool| t.json_spec())
}

pub open spec fn opt_response_format_json(o: Option<ResponseFormat>) -> Option<Json> {
    match o {
        Some(f) => Some(f.json_spec()),
        None => None,
    }
}

pub open spec fn opt_int_json(o: Option<i64>) -> Option<Json> {
    match o {
        Some(i) => Some(Json::Int(i as int)),
        None => None,
    }
}

pub open spec fn opt_bool_json(o: Option<bool>) -> Option<Json> {
    match o {
        Some(b) => Some(Json::Bool(b)),
        None => None,
    }
}

pub open spec fn opt_tool_choice_json(o: Option<ToolChoice>) -> Option<Json> {
    match o {
        Some(c) => Some(c.json_spec()),
        None => None,
    }
}

pub open spec fn opt_tools_json(o: Option<Vec<Tool>>) -> Option<Json> {
    match o {
        Some(ts) => Some(Json::Array(tools_json(ts@))),
        None => None,
    }
}

pub open spec fn opt_str_json(o: Option<String>) -> Option<Json> {
    match o {
        Some(s) => Some(Json::Str(s@)),
        None => None,
    }
}

/// Appends `key: value` when `value` is present.
pub fn push_opt(members: &mut Vec<(String, JsonValue)>, key: &str, value: Option<JsonValue>)
    ensures
        members_of(final(members)@) == members_of(old(members)@) + opt_json_member(
            key@,
            match value {
                Some(v) => Some(v@),
                None => None,
            },
        ),
{
    match value {
        Some(v) => {
            push_member(members, key, v);
        },
        None => {
            assert(members_of(members@) =~= members_of(members@) + Seq::<(Seq<char>, Json)>::empty());
        },
    }
}

/// The JSON array of some messages.
pub fn messages_to_json(ms: &Vec<Message>) -> (r: JsonValue)
    ensures
        r@ == Json::Array(messages_json(ms@)),
{
    let mut items: Vec<JsonValue> = Vec::new();
    let mut i: usize = 0;
    while i < ms.len()
        invariant
            i <= ms.len(),
            items_of(items@) == messages_json(ms@.take(i as int)),
        decreases ms.len() - i,
    {
        push_item(&mut items, ms[i].to_json());
        i = i + 1;
        proof {
            assert(messages_json(ms@.take(i as int)) =~= messages_json(ms@.take(i - 1)).push(
                ms@[i - 1].json_spec(),
            ));
        }
    }
    proof {
        assert(ms@.take(ms.len() as int) =~= ms@);
    }
    JsonValue::Array(items)
}

/// The JSON array of some tools.
pub fn tools_to_json(ts: &Vec<Tool>) -> (r: JsonValue)
    ensures
        r@ == Json::Array(tools_json(ts@)),
{
    let mut items: Vec<JsonValue> = Vec::new();
    let mut i: usize = 0;
    while i < ts.len()
        invariant
            i <= ts.len(),
            items_of(items@) == tools_json(ts@.take(i as int)),
        decreases ts.len() - i,
    {
        push_item(&mut items, ts[i].to_json());
        i = i + 1;
        proof {
            assert(tools_json(ts@.take(i as int)) =~= tools_json(ts@.take(i - 1)).push(
                ts@[i - 1].json_spec(),
            ));
        }
    }
    proof {
        assert(ts@.take(ts.len() as int) =~= ts@);
    }
    JsonValue::Array(items)
}

/// The members of a request's JSON form, in key order; absent options are left out.
pub open spec fn request_members(r: ChatRequest) -> Seq<(Seq<char>, Json)> {
    seq![("input"@, Json::Array(messages_json(r.input@)))]
        + opt_json_member("instructions"@, opt_str_json(r.instructions))
        + seq![("model"@, Json::Str(crate::types::model_id::model_name(r.model)))]
        + opt_json_member("previous_response_id"@, opt_str_json(r.previous_response_id))
        + opt_json_member("response_format"@, opt_response_format_json(r.response_format))
        + opt_json_member("seed"@, opt_int_json(r.seed))
        + opt_json_member("store"@, opt_bool_json(r.store))
        + opt_json_member("tool_choice"@, opt_tool_choice_json(r.tool_choice))
        + opt_json_member("tools"@, opt_tools_json(r.tools))
}

impl ChatRequest {
    pub fn new(model: ModelId, input: Vec<Message>) -> (r: ChatRequest)
        ensures
            r == (ChatRequest {
                model,
                input,
                instructions: None,
                response_format: None,
                seed: None,
                store: None,
                tools: None,
                tool_choice: None,
                previous_response_id: None,
            }),
    {
        ChatRequest {
            model,
            input,
            instructions: None,
            response_format: None,
            seed: None,
            store: None,
            tools: None,
            tool_choice: None,
            previous_response_id: None,
        }
    }

    pub fn with_instructions(self, instructions: String) -> (r: ChatRequest)
        ensures
            r == (ChatRequest { instructions: Some(instructions), ..self }),
    {
        ChatRequest { instructions: Some(instructions), ..self }
    }

    pub fn with_response_format(self, response_format: ResponseFormat) -> (r: ChatRequest)
        ensures
            r == (ChatRequest { response_format: Some(response_format), ..self }),
    {
        ChatRequest { response_format: Some(response_format), ..self }
    }

    pub fn with_seed(self, seed: i64) -> (r: ChatRequest)
        ensures
            r == (ChatRequest { seed: Some(seed), ..self }),
    {
        ChatRequest { seed: Some(seed), ..self }
    }

    pub fn with_store(self, store: bool) -> (r: ChatRequest)
        ensures
            r == (ChatRequest { store: Some(store), ..self }),
    {
        ChatRequest { store: Some(store), ..self }
    }

    pub fn with_tools(self, tools: Vec<Tool>) -> (r: ChatRequest)
        ensures
            r == (ChatRequest { tools: Some(tools), ..self }),
    {
        ChatRequest { tools: Some(tools), ..self }
    }

    pub fn with_tool_choice(self, tool_choice: ToolChoice) -> (r: ChatRequest)
        ensures
            r == (ChatRequest { tool_choice: Some(tool_choice), ..self }),
    {
        ChatRequest { tool_choice: Some(tool_choice), ..self }
    }

    pub fn with_previous_response_id(self, previous_response_id: String) -> (r: ChatRequest)
        ensures
            r == (ChatRequest { previous_response_id: Some(previous_response_id), ..self }),
    {
        ChatRequest { previous_response_id: Some(previous_response_id), ..self }
    }
}

impl ToJson for ChatRequest {
    open spec fn json_spec(&self) -> Json {
        Json::Object(request_members(*self))
    }

    fn to_json(&self) -> (r: JsonValue) {
        let mut members: Vec<(String, JsonValue)> = Vec::new();
        push_member(&mut members, "input", messages_to_json(&self.input));
        proof {
            assert(members_of(members@) =~= seq![("input"@, Json::Array(messages_json(self.input@)))]);
        }
        let instructions = match &self.instructions {
            Some(s) => Some(JsonValue::Str(s.clone())),
            None => None,
        };
        push_opt(&mut members, "instructions", instructions);
        let ghost before_model = members_of(members@);
        push_member(&mut members, "model", self.model.to_json());
        proof {
            assert(members_of(members@) =~= before_model + seq![
                ("model"@, Json::Str(crate::types::model_id::model_name(self.model))),
            ]);
        }
        let previous = match &self.previous_response_id {
            Some(s) => Some(JsonValue::Str(s.clone())),
            None => None,
        };
        push_opt(&mut members, "previous_response_id", previous);
        let format = match &self.response_format {
            Some(f) => Some(f.to_json()),
            None => None,
        };
        push_opt(&mut members, "response_format", format);
        let seed = match self.seed {
            Some(i) => Some(JsonValue::Int(i)),
            None => None,
        };
        push_opt(&mut members, "seed", seed);
        let store = match self.store {
            Some(b) => Some(JsonValue::Bool(b)),
            None => None,
        };
        push_opt(&mut members, "store", store);
        let choice = match &self.tool_choice {
            Some(c) => Some(c.to_json()),
            None => None,
        };
        push_opt(&mut members, "tool_choice", choice);
        let tools = match &self.tools {
            Some(ts) => Some(tools_to_json(ts)),
            None => None,
        };
        push_opt(&mut members, "tools", tools);
        proof {
            assert(members_of(members@) == request_members(*self));
        }
        JsonValue::Object(members)
    }
}


/// Whether `v` reads as schema properties.
pub open spec fn schema_prop_decodable(v: Json) -> bool {
    &&& str_member(v, "name"@) is Some
    &&& opt_string_of(member_or_null(v, "description"@)) is Ok
    &&& opt_bool_of(member_or_null(v, "strict"@)) is Ok
}

/// Whether `v` reads as a response format.
pub open spec fn response_format_decodable(v: Json) -> bool {
    let t = str_member(v, "type"@);
    t == Some("json_object"@) || t == Some("text"@) || (t == Some("json_schema"@)
        && schema_prop_decodable(member_or_null(v, "json_schema"@)))
}

/// Whether `v` reads as a tool.
pub open spec fn tool_decodable(v: Json) -> bool {
    match member(v, "function"@) {
        Some(f) => f is Object && match member(f, "description"@) {
            Some(d) => opt_string_of(d) is Ok,
            None => true,
        } && str_member(f, "name"@) is Some,
        None => false,
    }
}

/// `ms` holds, in order, the messages read from `items`.
pub open spec fn messages_read(items: Seq<Json>, ms: Seq<Message>) -> bool {
    &&& ms.len() == items.len()
    &&& forall|i: int| 0 <= i < items.len() ==> message_read(items[i], Ok(#[trigger] ms[i]))
}

/// `ts` holds, in order, the tools read from `items`.
pub open spec fn tools_read(items: Seq<Json>, ts: Seq<Tool>) -> bool {
    &&& ts.len() == items.len()
    &&& forall|i: int| 0 <= i < items.len() ==> tool_read(items[i], Ok(#[trigger] ts[i]))
}

pub open spec fn messages_decodable(items: Seq<Json>) -> bool {
    forall|i: int| 0 <= i < items.len() ==> message_decodable(#[trigger] items[i])
}

pub open spec fn tools_decodable(items: Seq<Json>) -> bool {
    forall|i: int| 0 <= i < items.len() ==> tool_decodable(#[trigger] items[i])
}

/// An optional member: absent, or present and satisfying `ok`.
pub open spec fn absent_or(m: Option<Json>, ok: spec_fn(Json) -> bool) -> bool {
    match m {
        Some(j) => ok(j),
        None => true,
    }
}

/// Whether `v` reads as a request: a known `model`, an array `input` of messages, and
/// each optional member, when present, of its kind.
pub open spec fn request_decodable(v: Json) -> bool {
    &&& match member_or_null(v, "model"@) {
        Json::Str(name) => crate::types::model_id::model_named(name) is Some,
        _ => false,
    }
    &&& match member(v, "input"@) {
        Some(Json::Array(items)) => messages_decodable(items),
        _ => false,
    }
    &&& absent_or(member(v, "instructions"@), |j: Json| j is Str)
    &&& absent_or(member(v, "response_format"@), |j: Json| response_format_decodable(j))
    &&& absent_or(member(v, "seed"@), |j: Json| j is Int)
    &&& absent_or(member(v, "store"@), |j: Json| j is Bool)
    &&& absent_or(
        member(v, "tools"@),
        |j: Json|
            match j {
                Json::Array(items) => tools_decodable(items),
                _ => false,
            },
    )
    &&& absent_or(member(v, "tool_choice"@), |j: Json| j == Json::Str("auto"@))
    &&& absent_or(member(v, "previous_response_id"@), |j: Json| j is Str)
}

/// What a request read from `v` holds: each field as read from its member.
pub open spec fn request_read(v: Json, x: ChatRequest) -> bool {
    &&& member_or_null(v, "model"@) == Json::Str(crate::types::model_id::model_name(x.model))
    &&& member(v, "input"@) matches Some(Json::Array(items)) && messages_read(items, x.input@)
    &&& opt_view(x.instructions) == str_member(v, "instructions"@)
    &&& match x.response_format {
        Some(f) => (member(v, "response_format"@) matches Some(j) && response_format_read(j, Ok(f))),
        None => member(v, "response_format"@) is None,
    }
    &&& x.seed == match member(v, "seed"@) {
        Some(Json::Int(i)) => Some(i as i64),
        _ => None,
    }
    &&& x.store == match member(v, "store"@) {
        Some(Json::Bool(b)) => Some(b),
        _ => None,
    }
    &&& match x.tools {
        Some(ts) => (member(v, "tools"@) matches Some(Json::Array(items)) && tools_read(items, ts@)),
        None => member(v, "tools"@) is None,
    }
    &&& (x.tool_choice is Some <==> member(v, "tool_choice"@) is Some)
    &&& opt_view(x.previous_response_id) == str_member(v, "previous_response_id"@)
}

proof fn lemma_response_format_decodable(v: Json, r: Result<ResponseFormat, Error>)
    requires
        response_format_read(v, r),
    ensures
        r is Ok <==> response_format_decodable(v),
{
}

proof fn lemma_tool_decodable(v: Json, r: Result<Tool, Error>)
    requires
        tool_read(v, r),
    ensures
        r is Ok <==> tool_decodable(v),
{
}

fn messages_from_json(items: &Vec<JsonValue>) -> (r: Result<Vec<Message>, Error>)
    ensures
        (forall|i: int| 0 <= i < items@.len() ==> message_decodable(#[trigger] items_of(items@)[i]))
            ==> (r matches Ok(ms) && messages_read(items_of(items@), ms@)),
        !(forall|i: int| 0 <= i < items@.len() ==> message_decodable(#[trigger] items_of(items@)[i]))
            ==> r == Err::<Vec<Message>, Error>(Error::InvalidJsonStructure),
{
    let mut ms: Vec<Message> = Vec::new();
    let mut i: usize = 0;
    proof {
        lemma_items_len(items@);
    }
    while i < items.len()
        invariant
            i <= items.len(),
            items_of(items@).len() == items.len(),
            ms@.len() == i,
            forall|k: int| 0 <= k < i ==> message_read(items_of(items@)[k], Ok(#[trigger] ms@[k])),
        decreases items.len() - i,
    {
        proof {
            lemma_items_index(items@, i as int);
        }
        let m = Message::from_json(&items[i]);
        proof {
            lemma_message_decodable(items@[i as int]@, m);
            lemma_message_error(items@[i as int]@, m);
        }
        match m {
            Ok(m) => {
                ms.push(m);
            },
            Err(e) => {
                return Err(e);
            },
        }
        i = i + 1;
    }
    proof {
        assert forall|k: int| 0 <= k < items@.len() implies message_decodable(#[trigger] items_of(items@)[k]) by {
            lemma_message_decodable(items_of(items@)[k], Ok(ms@[k]));
        }
    }
    Ok(ms)
}

fn tools_from_json(items: &Vec<JsonValue>) -> (r: Result<Vec<Tool>, Error>)
    ensures
        (forall|i: int| 0 <= i < items@.len() ==> tool_decodable(#[trigger] items_of(items@)[i]))
            ==> (r matches Ok(ts) && tools_read(items_of(items@), ts@)),
        !(forall|i: int| 0 <= i < items@.len() ==> tool_decodable(#[trigger] items_of(items@)[i]))
            ==> r == Err::<Vec<Tool>, Error>(tool_error(items_of(items@)[first_bad_tool(items_of(items@))])),
{
    let mut ts: Vec<Tool> = Vec::new();
    let mut i: usize = 0;
    proof {
        lemma_items_len(items@);
    }
    while i < items.len()
        invariant
            i <= items.len(),
            items_of(items@).len() == items.len(),
            ts@.len() == i,
            forall|k: int| 0 <= k < i ==> tool_read(items_of(items@)[k], Ok(#[trigger] ts@[k])),
        decreases items.len() - i,
    {
        proof {
            lemma_items_index(items@, i as int);
        }
        let t = Tool::from_json(&items[i]);
        proof {
            lemma_tool_decodable(items@[i as int]@, t);
            if t is Err {
                let its = items_of(items@);
                assert(!tool_decodable(its[i as int]));
                let j = first_bad_tool(its);
                assert(forall|k: int| 0 <= k < i ==> tool_decodable(#[trigger] its[k])) by {
                    assert forall|k: int| 0 <= k < i implies tool_decodable(#[trigger] its[k]) by {
                        lemma_tool_decodable(its[k], Ok(ts@[k]));
                    }
                }
                if j < i {
                    assert(tool_decodable(its[j]));
                } else if j > i {
                    assert(tool_decodable(its[i as int]));
                }
                assert(j == i);
            }
        }
        match t {
            Ok(t) => {
                ts.push(t);
            },
            Err(e) => {
                return Err(e);
            },
        }
        i = i + 1;
    }
    proof {
        assert forall|k: int| 0 <= k < items@.len() implies tool_decodable(#[trigger] items_of(items@)[k]) by {
            lemma_tool_decodable(items_of(items@)[k], Ok(ts@[k]));
        }
    }
    Ok(ts)
}

/// The error of reading `v` as a tool.
pub open spec fn tool_error(v: Json) -> Error {
    match member(v, "function"@) {
        Some(f) => if !(f is Object) {
            Error::InvalidJsonStructure
        } else {
            match member(f, "description"@) {
                Some(d) => if opt_string_of(d) is Err {
                    Error::JsonExpectedString
                } else {
                    Error::InvalidJsonStructure
                },
                None => Error::InvalidJsonStructure,
            }
        },
        None => Error::InvalidJsonStructure,
    }
}

/// The first element of `items` that does not read as a tool.
pub open spec fn first_bad_tool(items: Seq<Json>) -> int {
    choose|i: int| 0 <= i < items.len() && !tool_decodable(#[trigger] items[i])
        && forall|k: int| 0 <= k < i ==> tool_decodable(#[trigger] items[k])
}

/// The error of reading `v` as a response format.
pub open spec fn response_format_error(v: Json) -> Error {
    let t = str_member(v, "type"@);
    if t == Some("json_schema"@) {
        let p = member_or_null(v, "json_schema"@);
        if str_member(p, "name"@) is None {
            Error::JsonExpectedString
        } else if opt_string_of(member_or_null(p, "description"@)) is Err {
            Error::JsonExpectedString
        } else {
            Error::JsonExpectedBool
        }
    } else {
        Error::InvalidResponseFormat
    }
}

/// The error of reading `v` as a request: the first member, in the order `model`, `input`,
/// `instructions`, `response_format`, `seed`, `store`, `tools`, `tool_choice`,
/// `previous_response_id`, that does not read.
pub open spec fn request_error(v: Json) -> Error {
    if !(match member_or_null(v, "model"@) {
        Json::Str(name) => crate::types::model_id::model_named(name) is Some,
        _ => false,
    }) {
        Error::InvalidModelName
    } else if !(match member(v, "input"@) {
        Some(Json::Array(items)) => messages_decodable(items),
        _ => false,
    }) {
        Error::InvalidJsonStructure
    } else if !absent_or(member(v, "instructions"@), |j: Json| j is Str) {
        Error::JsonExpectedString
    } else if !absent_or(member(v, "response_format"@), |j: Json| response_format_decodable(j)) {
        response_format_error(member(v, "response_format"@)->0)
    } else if !absent_or(member(v, "seed"@), |j: Json| j is Int) {
        Error::JsonExpectedI64
    } else if !absent_or(member(v, "store"@), |j: Json| j is Bool) {
        Error::JsonExpectedBool
    } else if !absent_or(member(v, "tools"@), |j: Json| j is Array) {
        Error::JsonExpectedArray
    } else if !absent_or(
        member(v, "tools"@),
        |j: Json|
            match j {
                Json::Array(items) => tools_decodable(items),
                _ => false,
            },
    ) {
        tool_error(member(v, "tools"@)->0->Array_0[first_bad_tool(member(v, "tools"@)->0->Array_0)])
    } else if !absent_or(member(v, "tool_choice"@), |j: Json| j == Json::Str("auto"@)) {
        Error::InvalidToolChoice
    } else {
        Error::JsonExpectedString
    }
}

proof fn lemma_tool_error(v: Json, r: Result<Tool, Error>)
    requires
        tool_read(v, r),
    ensures
        r matches Err(e) ==> e == tool_error(v),
{
}

proof fn lemma_response_format_error(v: Json, r: Result<ResponseFormat, Error>)
    requires
        response_format_read(v, r),
    ensures
        r matches Err(e) ==> e == response_format_error(v),
{
}

impl ChatRequest {
    /// Reads a request from its JSON form.
    pub fn from_json(v: &JsonValue) -> (r: Result<ChatRequest, Error>)
        ensures
            request_decodable(v@) ==> (r matches Ok(x) && request_read(v@, x)),
            !request_decodable(v@) ==> r == Err::<ChatRequest, Error>(request_error(v@)),
    {
        let model = match v.get("model") {
            Some(m) => ModelId::from_json(m),
            None => ModelId::from_json(&JsonValue::Null),
        };
        let model = match model {
            Ok(m) => m,
            Err(e) => return Err(e),
        };
        proof {
            crate::types::model_id::lemma_model_name_round_trip(model);
        }
        let input = match v.get("input") {
            Some(JsonValue::Array(items)) => {
                proof {
                    lemma_items_len(items@);
                    assert(crate::json::member(v@, "input"@) == Some(Json::Array(items_of(items@))));
                    if request_decodable(v@) {
                        assert(messages_decodable(items_of(items@)));
                    }
                }
                match messages_from_json(items) {
                    Ok(ms) => ms,
                    Err(e) => return Err(e),
                }
            },
            _ => return Err(Error::InvalidJsonStructure),
        };
        let mut result = ChatRequest::new(model, input);
        match v.get("instructions") {
            Some(JsonValue::Str(s)) => {
                result = result.with_instructions(s.clone());
            },
            Some(_) => return Err(Error::JsonExpectedString),
            None => {},
        }
        match v.get("response_format") {
            Some(f) => {
                let f = ResponseFormat::from_json(f);
                proof {
                    lemma_response_format_decodable(crate::json::member(v@, "response_format"@)->0, f);
                    lemma_response_format_error(crate::json::member(v@, "response_format"@)->0, f);
                }
                match f {
                    Ok(f) => {
                        result = result.with_response_format(f);
                    },
                    Err(e) => return Err(e),
                }
            },
            None => {},
        }
        match v.get("seed") {
            Some(JsonValue::Int(i)) => {
                result = result.with_seed(*i);
            },
            Some(_) => return Err(Error::JsonExpectedI64),
            None => {},
        }
        match v.get("store") {
            Some(JsonValue::Bool(b)) => {
                result = result.with_store(*b);
            },
            Some(_) => return Err(Error::JsonExpectedBool),
            None => {},
        }
        match v.get("tools") {
            Some(JsonValue::Array(items)) => {
                proof {
                    lemma_items_len(items@);
                    assert(crate::json::member(v@, "tools"@) == Some(Json::Array(items_of(items@))));
                    if request_decodable(v@) {
                        assert(tools_decodable(items_of(items@)));
                    }
                }
                match tools_from_json(items) {
                    Ok(ts) => {
                        result = result.with_tools(ts);
                    },
                    Err(e) => return Err(e),
                }
            },
            Some(_) => return Err(Error::JsonExpectedArray),
            None => {},
        }
        match v.get("tool_choice") {
            Some(c) => match ToolChoice::from_json(c) {
                Ok(c) => {
                    result = result.with_tool_choice(c);
                },
                Err(e) => return Err(e),
            },
            None => {},
        }
        match v.get("previous_response_id") {
            Some(JsonValue::Str(s)) => {
                result = result.with_previous_response_id(s.clone());
            },
            Some(_) => return Err(Error::JsonExpectedString),
            None => {},
        }
        Ok(result)
    }
}

} // verus!
