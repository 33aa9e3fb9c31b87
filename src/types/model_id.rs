use vstd::prelude::*;
use vstd::string::StringExecFns;

use crate::json::{Json, JsonValue};
use crate::types::error::Error;
use crate::types::ToJson;

verus! {

/// Whether two strings hold the same characters.
pub fn str_eq(a: &str, b: &str) -> (r: bool)
    ensures
        r == (a@ == b@),
{
    String::from_str(a) == String::from_str(b)
}

#[derive(Debug, PartialEq, Eq, Clone, Copy)]
pub enum ModelId {
    Gpt5,
    Gpt5Mini,
    Gpt5Nano,
    Gpt5Pro,
}

pub open spec fn model_name(m: ModelId) -> Seq<char> {
    match m {
        ModelId::Gpt5 => "gpt-5"@,
        ModelId::Gpt5Mini => "gpt-5-mini"@,
        ModelId::Gpt5Nano => "gpt-5-nano"@,
        ModelId::Gpt5Pro => "gpt-5-pro"@,
    }
}

/// The model called `name`, if there is one.
pub open spec fn model_named(name: Seq<char>) -> Option<ModelId> {
    if name == "gpt-5"@ {
        Some(ModelId::Gpt5)
    } else if name == "gpt-5-mini"@ {
        Some(ModelId::Gpt5Mini)
    } else if name == "gpt-5-nano"@ {
        Some(ModelId::Gpt5Nano)
    } else if name == "gpt-5-pro"@ {
        Some(ModelId::Gpt5Pro)
    } else {
        None
    }
}

impl ModelId {
    pub fn name(&self) -> (r: String)
        ensures
            r@ == model_name(*self),
    {
        match self {
            ModelId::Gpt5 => String::from_str("gpt-5"),
            ModelId::Gpt5Mini => String::from_str("gpt-5-mini"),
            ModelId::Gpt5Nano => String::from_str("gpt-5-nano"),
            ModelId::Gpt5Pro => String::from_str("gpt-5-pro"),
        }
    }

    pub fn values() -> (r: Vec<ModelId>)
        ensures
            r@ == seq![ModelId::Gpt5, ModelId::Gpt5Mini, ModelId::Gpt5Nano, ModelId::Gpt5Pro],
    {
        let r = vec![ModelId::Gpt5, ModelId::Gpt5Mini, ModelId::Gpt5Nano, ModelId::Gpt5Pro];
        assert(r@ =~= seq![ModelId::Gpt5, ModelId::Gpt5Mini, ModelId::Gpt5Nano, ModelId::Gpt5Pro]);
        r
    }

    pub fn from_str(name: &str) -> (r: Result<ModelId, Error>)
        ensures
            match model_named(name@) {
                Some(m) => r == Ok::<ModelId, Error>(m),
                None => r == Err::<ModelId, Error>(Error::InvalidModelName),
            },
    {
        if str_eq(name, "gpt-5") {
            Ok(ModelId::Gpt5)
        } else if str_eq(name, "gpt-5-mini") {
            Ok(ModelId::Gpt5Mini)
        } else if str_eq(name, "gpt-5-nano") {
            Ok(ModelId::Gpt5Nano)
        } else if str_eq(name, "gpt-5-pro") {
            Ok(ModelId::Gpt5Pro)
        } else {
            Err(Error::InvalidModelName)
        }
    }

    /// Reads a model from its name held as a JSON string.
    pub fn from_json(v: &JsonValue) -> (r: Result<ModelId, Error>)
        ensures
            match v@ {
                Json::Str(s) => match model_named(s) {
                    Some(m) => r == Ok::<ModelId, Error>(m),
                    None => r == Err::<ModelId, Error>(Error::InvalidModelName),
                },
                _ => r == Err::<ModelId, Error>(Error::InvalidModelName),
            },
    {
        match v.as_str() {
            Some(s) => ModelId::from_str(s.as_str()),
            None => Err(Error::InvalidModelName),
        }
    }
}

impl ToJson for ModelId {
    open spec fn json_spec(&self) -> Json {
        Json::Str(model_name(*self))
    }

    fn to_json(&self) -> (r: JsonValue) {
        JsonValue::Str(self.name())
    }
}

/// Every model is found again by its name, and the names are distinct.
pub proof fn lemma_model_name_round_trip(m: ModelId)
    ensures
        model_named(model_name(m)) == Some(m),
{
    reveal_strlit("gpt-5");
    reveal_strlit("gpt-5-mini");
    reveal_strlit("gpt-5-nano");
    reveal_strlit("gpt-5-pro");
    assert("gpt-5"@.len() == 5);
    assert("gpt-5-mini"@.len() == 10);
    assert("gpt-5-nano"@.len() == 10);
    assert("gpt-5-pro"@.len() == 9);
    assert("gpt-5-mini"@[6] != "gpt-5-nano"@[6]);
}

#[derive(Debug, PartialEq, Eq, Clone, Copy)]
pub enum OpenAIModelId {
    Gpt35Turbo,
    Gpt35Turbo0613,
    Gpt35Turbo0125,
    Gpt4o,
    Gpt4o20240513,
    Gpt4o20240806,
    Gpt4oMini,
    Gpt4oMini20240718,
}

pub open spec fn openai_model_name(m: OpenAIModelId) -> Seq<char> {
    match m {
        OpenAIModelId::Gpt35Turbo => "gpt-3.5-turbo"@,
        OpenAIModelId::Gpt35Turbo0613 => "gpt-3.5-turbo-0613"@,
        OpenAIModelId::Gpt35Turbo0125 => "gpt-3.5-turbo-0125"@,
        OpenAIModelId::Gpt4o => "gpt-4o"@,
        OpenAIModelId::Gpt4o20240513 => "gpt-4o-2024-05-13"@,
        OpenAIModelId::Gpt4o20240806 => "gpt-4o-2024-08-06"@,
        OpenAIModelId::Gpt4oMini => "gpt-4o-mini"@,
        OpenAIModelId::Gpt4oMini20240718 => "gpt-4o-mini-2024-07-18"@,
    }
}

pub open spec fn openai_model_named(name: Seq<char>) -> Option<OpenAIModelId> {
    if name == "gpt-3.5-turbo"@ {
        Some(OpenAIModelId::Gpt35Turbo)
    } else if name == "gpt-3.5-turbo-0613"@ {
        Some(OpenAIModelId::Gpt35Turbo0613)
    } else if name == "gpt-3.5-turbo-0125"@ {
        Some(OpenAIModelId::Gpt35Turbo0125)
    } else if name == "gpt-4o"@ {
        Some(OpenAIModelId::Gpt4o)
    } else if name == "gpt-4o-2024-05-13"@ {
        Some(OpenAIModelId::Gpt4o20240513)
    } else if name == "gpt-4o-2024-08-06"@ {
        Some(OpenAIModelId::Gpt4o20240806)
    } else if name == "gpt-4o-mini"@ {
        Some(OpenAIModelId::Gpt4oMini)
    } else if name == "gpt-4o-mini-2024-07-18"@ {
        Some(OpenAIModelId::Gpt4oMini20240718)
    } else {
        None
    }
}

impl OpenAIModelId {
    pub fn name(&self) -> (r: String)
        ensures
            r@ == openai_model_name(*self),
    {
        match self {
            OpenAIModelId::Gpt35Turbo => String::from_str("gpt-3.5-turbo"),
            OpenAIModelId::Gpt35Turbo0613 => String::from_str("gpt-3.5-turbo-0613"),
            OpenAIModelId::Gpt35Turbo0125 => String::from_str("gpt-3.5-turbo-0125"),
            OpenAIModelId::Gpt4o => String::from_str("gpt-4o"),
            OpenAIModelId::Gpt4o20240513 => String::from_str("gpt-4o-2024-05-13"),
            OpenAIModelId::Gpt4o20240806 => String::from_str("gpt-4o-2024-08-06"),
            OpenAIModelId::Gpt4oMini => String::from_str("gpt-4o-mini"),
            OpenAIModelId::Gpt4oMini20240718 => String::from_str("gpt-4o-mini-2024-07-18"),
        }
    }

    pub fn from_str(s: &str) -> (r: Result<OpenAIModelId, Error>)
        ensures
            match openai_model_named(s@) {
                Some(m) => r == Ok::<OpenAIModelId, Error>(m),
                None => r == Err::<OpenAIModelId, Error>(Error::InvalidModelName),
            },
    {
        if str_eq(s, "gpt-3.5-turbo") {
            Ok(OpenAIModelId::Gpt35Turbo)
        } else if str_eq(s, "gpt-3.5-turbo-0613") {
            Ok(OpenAIModelId::Gpt35Turbo0613)
        } else if str_eq(s, "gpt-3.5-turbo-0125") {
            Ok(OpenAIModelId::Gpt35Turbo0125)
        } else if str_eq(s, "gpt-4o") {
            Ok(OpenAIModelId::Gpt4o)
        } else if str_eq(s, "gpt-4o-2024-05-13") {
            Ok(OpenAIModelId::Gpt4o20240513)
        } else if str_eq(s, "gpt-4o-2024-08-06") {
            Ok(OpenAIModelId::Gpt4o20240806)
        } else if str_eq(s, "gpt-4o-mini") {
            Ok(OpenAIModelId::Gpt4oMini)
        } else if str_eq(s, "gpt-4o-mini-2024-07-18") {
            Ok(OpenAIModelId::Gpt4oMini20240718)
        } else {
            Err(Error::InvalidModelName)
        }
    }

    pub fn all() -> (r: Vec<OpenAIModelId>)
        ensures
            r@ == seq![
                OpenAIModelId::Gpt35Turbo,
                OpenAIModelId::Gpt35Turbo0613,
                OpenAIModelId::Gpt35Turbo0125,
                OpenAIModelId::Gpt4o,
                OpenAIModelId::Gpt4o20240513,
                OpenAIModelId::Gpt4o20240806,
                OpenAIModelId::Gpt4oMini,
                OpenAIModelId::Gpt4oMini20240718,
            ],
    {
        let r = vec![
            OpenAIModelId::Gpt35Turbo,
            OpenAIModelId::Gpt35Turbo0613,
            OpenAIModelId::Gpt35Turbo0125,
            OpenAIModelId::Gpt4o,
            OpenAIModelId::Gpt4o20240513,
            OpenAIModelId::Gpt4o20240806,
            OpenAIModelId::Gpt4oMini,
            OpenAIModelId::Gpt4oMini20240718,
        ];
        assert(r@ =~= seq![
            OpenAIModelId::Gpt35Turbo,
            OpenAIModelId::Gpt35Turbo0613,
            OpenAIModelId::Gpt35Turbo0125,
            OpenAIModelId::Gpt4o,
            OpenAIModelId::Gpt4o20240513,
            OpenAIModelId::Gpt4o20240806,
            OpenAIModelId::Gpt4oMini,
            OpenAIModelId::Gpt4oMini20240718,
        ]);
        r
    }
}

} // verus!
