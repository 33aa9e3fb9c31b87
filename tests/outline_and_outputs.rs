use booker::json::JsonValue;
use booker::outline::{BookOutline, ChapterOutline, SectionOutline};
use booker::outputs::{get_tool_arguments, message_text, ProjectConfig, ToolResponseError};

fn object(members: Vec<(&str, JsonValue)>) -> JsonValue {
    JsonValue::Object(members.into_iter().map(|(k, v)| (k.to_string(), v)).collect())
}

fn text(s: &str) -> JsonValue {
    JsonValue::Str(s.to_string())
}

fn chapter() -> ChapterOutline {
    ChapterOutline {
        title: "Maps".to_string(),
        subtitle: "Drawing worlds".to_string(),
        overview: Some("Why maps matter.".to_string()),
        sections: Some(vec![SectionOutline {
            title: "Scale".to_string(),
            key_points: vec!["distance".to_string(), "travel".to_string()],
        }]),
        notes: Some(vec!["Keep it short.".to_string()]),
    }
}

#[test]
fn chapter_markdown() {
    assert_eq!(
        chapter().render_to_markdown(2),
        "## Chapter 3: Maps - Drawing worlds\n\n### Overview\n\nWhy maps matter.\n\n### Sections\n\n#### Scale\n- distance\n- travel\n\n### Notes\n\nKeep it short.\n\n"
    );
    let bare = ChapterOutline {
        title: "T".to_string(),
        subtitle: "S".to_string(),
        overview: None,
        sections: Some(vec![]),
        notes: Some(vec![]),
    };
    assert_eq!(bare.render_to_markdown(0), "## Chapter 1: T - S\n\n");
}

#[test]
fn book_markdown() {
    let book = BookOutline {
        title: None,
        subtitle: Some("A guide".to_string()),
        overview: Some("Overview text".to_string()),
        design_spine: Some("Spine".to_string()),
        notes: Some(vec!["n1".to_string(), "n2".to_string()]),
        chapters: Some(vec![chapter()]),
    };
    let expected = format!(
        "# Untitled book: A guide\n\n## Overview\n\nOverview text\n\n## Design Spine\n\nSpine\n\n## Additional Notes\n\nn1\n\nn2\n\n{}",
        chapter().render_to_markdown(0)
    );
    assert_eq!(book.render_to_markdown(), expected);
    let titled = BookOutline {
        title: Some("Worlds".to_string()),
        subtitle: None,
        overview: None,
        design_spine: None,
        notes: None,
        chapters: None,
    };
    assert_eq!(titled.render_to_markdown(), "# Worlds\n\n");
}

#[test]
fn tool_arguments_of_a_response() {
    let response = object(vec![(
        "output",
        JsonValue::Array(vec![
            object(vec![("type", text("message"))]),
            object(vec![("type", text("function_call")), ("name", text("other")), ("arguments", text("{}"))]),
            object(vec![
                ("type", text("function_call")),
                ("name", text("submit_outline")),
                ("arguments", text("{\"title\":\"T\"}")),
            ]),
        ]),
    )]);
    assert_eq!(get_tool_arguments(&response, "submit_outline"), Ok("{\"title\":\"T\"}".to_string()));
    assert_eq!(get_tool_arguments(&response, "missing"), Err(ToolResponseError::NoFunctionCall));
    let no_args = object(vec![(
        "output",
        JsonValue::Array(vec![object(vec![("type", text("function_call")), ("name", text("f"))])]),
    )]);
    assert_eq!(get_tool_arguments(&no_args, "f"), Err(ToolResponseError::NoArguments));
    assert_eq!(get_tool_arguments(&JsonValue::Null, "f"), Err(ToolResponseError::NoFunctionCall));
}

#[test]
fn message_text_of_a_response() {
    let response = object(vec![(
        "output",
        JsonValue::Array(vec![
            object(vec![("type", text("reasoning"))]),
            object(vec![
                ("type", text("message")),
                (
                    "content",
                    JsonValue::Array(vec![
                        object(vec![("text", text("Hello, "))]),
                        object(vec![("annotations", JsonValue::Array(vec![]))]),
                        object(vec![("text", text("world."))]),
                    ]),
                ),
            ]),
        ]),
    )]);
    assert_eq!(message_text(&response), Some("Hello, world.".to_string()));
    assert_eq!(message_text(&object(vec![("output", JsonValue::Array(vec![]))])), None);
}

#[test]
fn default_config() {
    assert_eq!(ProjectConfig::default().ai_instruction, "You are an expert book authoring AI.");
}
