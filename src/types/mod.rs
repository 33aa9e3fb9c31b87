use vstd::prelude::*;

use crate::json::{Json, JsonValue};

pub mod error;
pub mod message;
pub mod model_id;
pub mod request;
pub mod response;

pub use error::Error;
pub use model_id::{ModelId, OpenAIModelId};

verus! {

/// A value with a JSON form; `json_spec` states that form.
pub trait ToJson {
    spec fn json_spec(&self) -> Json;

    fn to_json(&self) -> (r: JsonValue)
        ensures
            r@ == self.json_spec(),
    ;
}

} // verus!
