use vstd::prelude::*;
use vstd::string::StringExecFns;

use crate::json::{items_of, lemma_items_index, lemma_items_len, member, str_member, Json, JsonValue};

verus! {

/// Configuration of a book project.
#[derive(Debug, Clone, PartialEq, Eq)]
pub struct ProjectConfig {
    /// The system instruction given to the model.
    pub ai_instruction: String,
}

impl Default for ProjectConfig {
    fn default() -> (r: ProjectConfig)
        ensures
            r.ai_instruction@ == "You are an expert book authoring AI."@,
    {
        ProjectConfig { ai_instruction: String::from_str("You are an expert book authoring AI.") }
    }
}

/// The items of a response's `output` array; empty when there is none.
pub open spec fn output_items(response: Json) -> Seq<Json> {
    match member(response, "output"@) {
        Some(Json::Array(items)) => items,
        _ => Seq::empty(),
    }
}

/// Whether an output item is a call of the function `tool_name`.
pub open spec fn is_call_of(item: Json, tool_name: Seq<char>) -> bool {
    str_member(item, "type"@) == Some("function_call"@) && str_member(item, "name"@) == Some(tool_name)
}

/// The index of the first call of `tool_name` among `items`, if any.
pub open spec fn first_call(items: Seq<Json>, tool_name: Seq<char>) -> Option<int> {
    if exists|i: int| 0 <= i < items.len() && is_call_of(#[trigger] items[i], tool_name) {
        Some(choose|i: int| 0 <= i < items.len() && is_call_of(#[trigger] items[i], tool_name)
            && forall|k: int| 0 <= k < i ==> !is_call_of(#[trigger] items[k], tool_name))
    } else {
        None
    }
}

/// Why the arguments of a tool call could not be found in a response.
#[derive(Debug, Clone, Copy, PartialEq, Eq)]
pub enum ToolResponseError {
    /// No output item calls the tool.
    NoFunctionCall,
    /// The call carries no string `arguments`.
    NoArguments,
}

/// The `arguments` text of the first output item that calls `tool_name`.
pub fn get_tool_arguments(response: &JsonValue, tool_name: &str) -> (r: Result<String, ToolResponseError>)
    ensures
        match first_call(output_items(response@), tool_name@) {
            None => r == Err::<String, ToolResponseError>(ToolResponseError::NoFunctionCall),
            Some(i) => match str_member(output_items(response@)[i], "arguments"@) {
                Some(a) => (r matches Ok(s) && s@ == a),
                None => r == Err::<String, ToolResponseError>(ToolResponseError::NoArguments),
            },
        },
{
    let items = match response.get("output") {
        Some(JsonValue::Array(items)) => items,
        _ => {
            proof {
                assert(output_items(response@) =~= Seq::<Json>::empty());
            }
            return Err(ToolResponseError::NoFunctionCall);
        },
    };
    let ghost its = items_of(items@);
    proof {
        lemma_items_len(items@);
        assert(output_items(response@) == its);
    }
    let wanted_type = String::from_str("function_call");
    let wanted_name = String::from_str(tool_name);
    let mut i: usize = 0;
    while i < items.len()
        invariant
            i <= items.len(),
            its == items_of(items@),
            its.len() == items.len(),
            its == output_items(response@),
            wanted_type@ == "function_call"@,
            wanted_name@ == tool_name@,
            forall|k: int| 0 <= k < i ==> !is_call_of(#[trigger] its[k], tool_name@),
        decreases items.len() - i,
    {
        proof {
            lemma_items_index(items@, i as int);
        }
        let item = &items[i];
        let is_call = match (item.get_str("type"), item.get_str("name")) {
            (Some(t), Some(n)) => t == wanted_type && n == wanted_name,
            _ => false,
        };
        if is_call {
            proof {
                assert(is_call_of(its[i as int], tool_name@));
                let c = first_call(its, tool_name@);
                assert(c is Some);
                let j = c->0;
                if j < i {
                    assert(!is_call_of(its[j], tool_name@));
                } else if j > i {
                    assert(!is_call_of(its[i as int], tool_name@));
                }
                assert(j == i);
            }
            return match item.get_str("arguments") {
                Some(a) => Ok(a),
                None => Err(ToolResponseError::NoArguments),
            };
        }
        i = i + 1;
    }
    Err(ToolResponseError::NoFunctionCall)
}


pub open spec fn is_message(item: Json) -> bool {
    str_member(item, "type"@) == Some("message"@)
}

/// The index of the first message among `items`, if any.
pub open spec fn first_message(items: Seq<Json>) -> Option<int> {
    if exists|i: int| 0 <= i < items.len() && is_message(#[trigger] items[i]) {
        Some(choose|i: int| 0 <= i < items.len() && is_message(#[trigger] items[i])
            && forall|k: int| 0 <= k < i ==> !is_message(#[trigger] items[k]))
    } else {
        None
    }
}

/// The `text` members of `pieces`, joined; pieces without one add nothing.
pub open spec fn joined_texts(pieces: Seq<Json>) -> Seq<char>
    decreases pieces.len(),
{
    if pieces.len() == 0 {
        Seq::empty()
    } else {
        joined_texts(pieces.drop_last()) + match str_member(pieces.last(), "text"@) {
            Some(t) => t,
            None => Seq::empty(),
        }
    }
}

/// The text of a message's content: the joined texts of its pieces when it is an array.
pub open spec fn content_text(content: Json) -> Seq<char> {
    match content {
        Json::Array(pieces) => joined_texts(pieces),
        _ => Seq::empty(),
    }
}

/// The text of the first message in a response's output; `None` when there is no message
/// or it has no content.
pub fn message_text(response: &JsonValue) -> (r: Option<String>)
    ensures
        match first_message(output_items(response@)) {
            None => r is None,
            Some(i) => match member(output_items(response@)[i], "content"@) {
                Some(c) => (r matches Some(s) && s@ == content_text(c)),
                None => r is None,
            },
        },
{
    let items = match response.get("output") {
        Some(JsonValue::Array(items)) => items,
        _ => {
            proof {
                assert(output_items(response@) =~= Seq::<Json>::empty());
            }
            return None;
        },
    };
    let ghost its = items_of(items@);
    proof {
        lemma_items_len(items@);
    }
    let wanted = String::from_str("message");
    let mut i: usize = 0;
    while i < items.len()
        invariant
            i <= items.len(),
            its == items_of(items@),
            its.len() == items.len(),
            its == output_items(response@),
            wanted@ == "message"@,
            forall|k: int| 0 <= k < i ==> !is_message(#[trigger] its[k]),
        decreases items.len() - i,
    {
        proof {
            lemma_items_index(items@, i as int);
        }
        let item = &items[i];
        let found = match item.get_str("type") {
            Some(t) => t == wanted,
            None => false,
        };
        if found {
            proof {
                assert(is_message(its[i as int]));
                let j = first_message(its)->0;
                if j < i {
                    assert(!is_message(its[j]));
                } else if j > i {
                    assert(!is_message(its[i as int]));
                }
                assert(j == i);
            }
            return match item.get("content") {
                Some(c) => Some(joined_text(c)),
                None => None,
            };
        }
        i = i + 1;
    }
    None
}

fn joined_text(content: &JsonValue) -> (r: String)
    ensures
        r@ == content_text(content@),
{
    let mut out = String::new();
    match content {
        JsonValue::Array(pieces) => {
            let mut i: usize = 0;
            proof {
                lemma_items_len(pieces@);
                assert(items_of(pieces@).take(0) =~= Seq::<Json>::empty());
            }
            while i < pieces.len()
                invariant
                    i <= pieces.len(),
                    items_of(pieces@).len() == pieces.len(),
                    out@ == joined_texts(items_of(pieces@).take(i as int)),
                decreases pieces.len() - i,
            {
                proof {
                    lemma_items_index(pieces@, i as int);
                }
                match pieces[i].get_str("text") {
                    Some(t) => out.append(t.as_str()),
                    None => {},
                }
                i = i + 1;
                proof {
                    let next = items_of(pieces@).take(i as int);
                    assert(next.drop_last() =~= items_of(pieces@).take(i - 1));
                    assert(out@ =~= joined_texts(next));
                }
            }
            proof {
                assert(items_of(pieces@).take(pieces.len() as int) =~= items_of(pieces@));
            }
        },
        _ => {},
    }
    out
}

} // verus!
