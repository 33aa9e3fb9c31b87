use std::collections::{HashMap, HashSet};

use booker::cache::{DefaultRequestCache, OpenAILLM, RequestOutcome, TrivialFSPathType};
use booker::fingerprint::fingerprint;
use booker::json::{canonical_text, JsonValue};
use booker::lifecycle::{
    get_file_state, get_input_state, is_file_entry_clean, load_step_state, try_get_file_hash,
    write_step_state, FileState, PipelineError, StepFile, StepLifecycle, StepState,
};
use booker::steps::{
    all_steps, lifecycle_symbol, step, CombineChapters, ProjectInit, RebuildBookOutlineJson,
    RebuildBookOutlineState, Step, StepAction, BookStatement,
};
use booker::types::message::{Message, UserMessage};
use booker::types::request::ChatRequest;
use booker::types::{Error, ModelId, OpenAIModelId, ToJson};

/// The files and persisted manifests of a project, held in memory.
#[derive(Default)]
struct Disk {
    files: HashMap<String, Vec<u8>>,
    manifests: HashMap<String, JsonValue>,
}

impl Disk {
    fn lifecycle(&self, s: &Step) -> StepLifecycle {
        let observed: Vec<Option<String>> = s
            .observed_files()
            .iter()
            .map(|f| try_get_file_hash(self.files.get(f).map(|c| c.as_slice())))
            .collect();
        let path = booker::lifecycle::step_state_path(&s.key);
        let manifest = load_step_state(self.manifests.get(&path)).unwrap();
        s.get_lifecycle(&observed, manifest.is_some(), &None)
    }

    fn run(&mut self, s: &Step, outputs: &[(&str, &[u8])]) -> Result<(), PipelineError> {
        s.begin_run(&self.lifecycle(s))?;
        let inputs = s
            .action
            .input_files()
            .iter()
            .map(|f| StepFile::from_file(f, self.files.get(f).unwrap()))
            .collect();
        let mut produced = vec![];
        for (name, content) in outputs {
            self.files.insert(name.to_string(), content.to_vec());
            produced.push(StepFile::from_file(name, content));
        }
        let state = StepState { key: s.key.clone(), inputs, outputs: produced };
        let (path, doc) = s.finish_run(Some(state))?;
        self.manifests.insert(path, doc);
        Ok(())
    }
}

fn step_a() -> Step {
    step("Write out.txt", "A", StepAction::ProjectInit(ProjectInit))
}

fn default_b_lifecycle(disk: &Disk) -> StepLifecycle {
    let declared = vec!["out.txt".to_string()];
    let observed: Vec<Option<String>> = declared
        .iter()
        .map(|f| try_get_file_hash(disk.files.get(f).map(|c| c.as_slice())))
        .collect();
    let path = booker::lifecycle::step_state_path("B");
    let manifest = load_step_state(disk.manifests.get(&path)).unwrap();
    Step::get_lifecycle_by_files_and_state_json(&declared, &observed, manifest.is_some())
}

fn request(text: &str) -> ChatRequest {
    ChatRequest::new(ModelId::Gpt5Mini, vec![Message::user_message(text)])
}

#[test]
fn scenario_a_step_without_inputs() {
    let mut disk = Disk::default();
    let a = step_a();
    assert_eq!(disk.lifecycle(&a), StepLifecycle::Runnable);
    disk.run(&a, &[("out.txt", b"hello")]).unwrap();
    let doc = disk.manifests.get(".booker/A.stepstate.json").unwrap();
    let manifest = load_step_state(Some(doc)).unwrap().unwrap();
    assert_eq!(
        manifest,
        StepState {
            key: "A".to_string(),
            inputs: vec![],
            outputs: vec![StepFile { filename: "out.txt".to_string(), hash: fingerprint(b"hello") }],
        }
    );
    assert_eq!(disk.lifecycle(&a), StepLifecycle::CompleteRunnable);
}

#[test]
fn scenario_b_waits_for_its_input() {
    let mut disk = Disk::default();
    assert_eq!(default_b_lifecycle(&disk), StepLifecycle::NotRunnable(vec!["out.txt".to_string()]));
    disk.run(&step_a(), &[("out.txt", b"hello")]).unwrap();
    assert_eq!(default_b_lifecycle(&disk), StepLifecycle::Runnable);
}

#[test]
fn scenario_c_input_deleted_after_completion() {
    let mut disk = Disk::default();
    let a = step_a();
    disk.run(&a, &[("out.txt", b"hello")]).unwrap();
    let declared = vec!["out.txt".to_string()];
    let observed = vec![try_get_file_hash(Some(b"hello".as_slice()))];
    assert_eq!(
        Step::get_lifecycle_by_files_and_state_json(&declared, &observed, false),
        StepLifecycle::Runnable
    );
    let b_state = StepState {
        key: "B".to_string(),
        inputs: vec![StepFile::from_file("out.txt", b"hello")],
        outputs: vec![],
    };
    let (path, doc) = write_step_state(&b_state);
    disk.manifests.insert(path, doc);
    disk.files.remove("out.txt");
    assert_eq!(disk.lifecycle(&a), StepLifecycle::CompleteRunnable);
    assert_eq!(
        default_b_lifecycle(&disk),
        StepLifecycle::CompleteNotRunnable(vec!["out.txt".to_string()])
    );
}

#[test]
fn run_refuses_missing_inputs_and_persists_nothing() {
    let mut disk = Disk::default();
    let b = step("Read", "B", StepAction::BookStatement(BookStatement));
    let combine = step("Combine", "combine", StepAction::CombineChapters(CombineChapters { chapter_count: 1 }));
    let r = disk.run(&combine, &[]);
    assert_eq!(
        r,
        Err(PipelineError::MissingDependencies(vec![
            "book_outline_with_spine.json".to_string(),
            ".booker/chapter_1.json".to_string(),
        ]))
    );
    assert!(disk.manifests.is_empty());
    assert_eq!(b.finish_run(None), Err(PipelineError::StepFailed));
}

#[test]
fn lifecycle_totality_examples() {
    let declared = vec!["a.txt".to_string(), "b.txt".to_string()];
    let present = vec![Some("x".to_string()), Some("y".to_string())];
    let a_missing = vec![None, Some("y".to_string())];
    assert_eq!(Step::get_lifecycle_by_files_and_state_json(&declared, &present, false), StepLifecycle::Runnable);
    assert_eq!(
        Step::get_lifecycle_by_files_and_state_json(&declared, &present, true),
        StepLifecycle::CompleteRunnable
    );
    assert_eq!(
        Step::get_lifecycle_by_files_and_state_json(&declared, &a_missing, false),
        StepLifecycle::NotRunnable(vec!["a.txt".to_string()])
    );
    assert_eq!(
        Step::get_lifecycle_by_files_and_state_json(&declared, &a_missing, true),
        StepLifecycle::CompleteNotRunnable(vec!["a.txt".to_string()])
    );
}

#[test]
fn rebuild_step_checks_both_fingerprints() {
    let b = RebuildBookOutlineJson::new("in.md", "out.json", "custom");
    let state = Some(RebuildBookOutlineState {
        input_markdown_hash: "m".to_string(),
        output_json_hash: "j".to_string(),
    });
    let m = Some("m".to_string());
    let j = Some("j".to_string());
    let other = Some("changed".to_string());
    assert_eq!(b.get_lifecycle(&state, &m, &j), StepLifecycle::CompleteRunnable);
    assert_eq!(b.get_lifecycle(&state, &other, &j), StepLifecycle::Runnable);
    assert_eq!(b.get_lifecycle(&state, &m, &None), StepLifecycle::Runnable);
    assert_eq!(b.get_lifecycle(&None, &m, &j), StepLifecycle::Runnable);
    assert_eq!(b.get_lifecycle(&state, &None, &j), StepLifecycle::NotRunnable(vec!["in.md".to_string()]));
    assert_eq!(b.get_lifecycle(&None, &None, &None), StepLifecycle::NotRunnable(vec!["in.md".to_string()]));
    let doc = state.as_ref().unwrap().to_json();
    assert_eq!(RebuildBookOutlineState::from_json(&doc), Ok(state.clone().unwrap()));
    assert_eq!(RebuildBookOutlineState::from_json(&JsonValue::Null), Err(PipelineError::CorruptState));
}

#[test]
fn fingerprint_known_values() {
    assert_eq!(fingerprint(b""), "e3b0c44298fc1c149afbf4c8996fb924");
    assert_eq!(fingerprint(b"abc"), "ba7816bf8f01cfea414140de5dae2223");
    assert_eq!(fingerprint(b"abc"), fingerprint(b"abc"));
}

#[test]
fn fingerprint_has_no_collisions_on_a_corpus() {
    let mut seen = HashSet::new();
    for i in 0..5000u32 {
        let content = format!("content number {}", i);
        let f = fingerprint(content.as_bytes());
        assert_eq!(f.len(), 32);
        assert!(f.chars().all(|c| c.is_ascii_hexdigit() && !c.is_ascii_uppercase()));
        assert!(seen.insert(f));
    }
}

#[test]
fn file_states() {
    assert_eq!(get_file_state(&None, "h"), FileState::Missing);
    assert_eq!(get_file_state(&Some("h".to_string()), "h"), FileState::Matching);
    assert_eq!(get_file_state(&Some("g".to_string()), "h"), FileState::Changed);
    let inputs = vec![
        StepFile { filename: "a".to_string(), hash: "1".to_string() },
        StepFile { filename: "b".to_string(), hash: "2".to_string() },
    ];
    assert_eq!(get_input_state(&inputs, &vec![Some("1".to_string()), Some("2".to_string())]), FileState::Matching);
    assert_eq!(get_input_state(&inputs, &vec![Some("1".to_string()), Some("3".to_string())]), FileState::Changed);
    assert_eq!(get_input_state(&inputs, &vec![None, Some("3".to_string())]), FileState::Missing);
    assert!(is_file_entry_clean(&inputs[0], &Some("1".to_string())));
    assert!(!is_file_entry_clean(&inputs[0], &Some("2".to_string())));
    assert!(!is_file_entry_clean(&inputs[0], &None));
    assert_eq!(try_get_file_hash(None), None);
}

#[test]
fn corrupt_manifest_is_reported() {
    assert_eq!(load_step_state(None), Ok(None));
    let doc = JsonValue::Object(vec![("key".to_string(), JsonValue::Str("A".to_string()))]);
    assert_eq!(load_step_state(Some(&doc)), Err(PipelineError::CorruptState));
}

#[test]
fn registered_steps_follow_chapter_count() {
    let steps = all_steps(0);
    assert_eq!(steps.len(), 7);
    assert_eq!(steps[0].key, "init");
    let steps = all_steps(2);
    let keys: Vec<&str> = steps.iter().map(|s| s.key.as_str()).collect();
    assert_eq!(
        keys,
        vec![
            "init",
            "initialize",
            "rebuild_outline_json",
            "generate_summary",
            "rebuild_outline_json_2",
            "design_spine",
            "rebuild_outline_json_3",
            "generate_chapter_1",
            "generate_chapter_2",
            "combine_chapters",
        ]
    );
    assert_eq!(steps[8].description, "Generate chapter 2");
    assert_eq!(
        steps[9].action.input_files(),
        vec![
            "book_outline_with_spine.json".to_string(),
            ".booker/chapter_1.json".to_string(),
            ".booker/chapter_2.json".to_string(),
        ]
    );
    assert_eq!(lifecycle_symbol(&StepLifecycle::Runnable), ">");
    assert_eq!(lifecycle_symbol(&StepLifecycle::NotRunnable(vec![])), ".");
}

#[test]
fn cache_round_trip() {
    let cache = DefaultRequestCache::new("cache", TrivialFSPathType::Directory).unwrap();
    let req = request("Hello!");
    let resp = JsonValue::Object(vec![("id".to_string(), JsonValue::Str("r1".to_string()))]);
    assert_eq!(cache.get_response_if_cached(&req, None), Ok(None));
    let (path, entry) = cache.cache_response(&req, &resp).unwrap();
    assert_eq!(path, cache.request_path(&req).unwrap());
    assert!(path.starts_with("cache/") && path.ends_with(".json") && path.len() == "cache/".len() + 32 + 5);
    assert_eq!(cache.get_response_if_cached(&req, Some(&entry)), Ok(Some(resp)));
    assert!(matches!(
        DefaultRequestCache::new("cache", TrivialFSPathType::File),
        Err(PipelineError::NotADirectory)
    ));
    assert!(matches!(
        DefaultRequestCache::new("cache", TrivialFSPathType::NoSuchPath),
        Err(PipelineError::NotADirectory)
    ));
}

#[test]
fn canonical_text_of_a_request() {
    let req = request("Hello!");
    assert_eq!(
        canonical_text(&req.to_json()),
        r#"{"input":[{"content":"Hello!","role":"user"}],"model":"gpt-5-mini"}"#
    );
    let quoted = UserMessage::new("a\"b\\c\nd\u{1}");
    assert_eq!(
        canonical_text(&quoted.to_json()),
        r#"{"content":"a\"b\\c\nd\u0001","role":"user"}"#
    );
    let with_seed = request("x").with_seed(-42);
    assert!(canonical_text(&with_seed.to_json()).contains(r#""seed":-42"#));
}

#[test]
fn canonicalization_ignores_option_order() {
    let cache = DefaultRequestCache::new("cache", TrivialFSPathType::Directory).unwrap();
    let a = request("Hi").with_seed(7).with_store(true).with_instructions("be brief".to_string());
    let b = request("Hi").with_instructions("be brief".to_string()).with_store(true).with_seed(7);
    assert_eq!(cache.key(&a), cache.key(&b));
    let (_, entry) = cache.cache_response(&a, &JsonValue::Int(1)).unwrap();
    assert_eq!(cache.get_response_if_cached(&b, Some(&entry)), Ok(Some(JsonValue::Int(1))));
    assert_ne!(cache.key(&a), cache.key(&request("Hi")));
}

#[test]
fn tampered_entry_is_corruption() {
    let cache = DefaultRequestCache::new("cache", TrivialFSPathType::Directory).unwrap();
    let req = request("first question");
    let (_, entry) = cache.cache_response(&req, &JsonValue::Str("answer".to_string())).unwrap();
    let tampered = match entry {
        JsonValue::Object(mut members) => {
            members[0].1 = request("tampered").to_json();
            members[1].1 = JsonValue::Str("tampered answer".to_string());
            JsonValue::Object(members)
        }
        _ => panic!("an entry is an object"),
    };
    assert_eq!(cache.get_response_if_cached(&req, Some(&tampered)), Err(PipelineError::CacheCorruption));
    let partial = JsonValue::Object(vec![("request".to_string(), req.to_json())]);
    assert_eq!(cache.get_response_if_cached(&req, Some(&partial)), Err(PipelineError::CorruptState));
}

#[test]
fn rerun_is_answered_from_cache() {
    let cache = DefaultRequestCache::new("cache", TrivialFSPathType::Directory).unwrap();
    let llm = OpenAILLM::new(cache);
    let req = request("summarise");
    let mut store: HashMap<String, JsonValue> = HashMap::new();
    let mut external_calls = 0;
    let mut outputs = vec![];
    for _ in 0..2 {
        let path = llm.cache.request_path(&req).unwrap();
        let response = match llm.make_request(&req, store.get(&path)).unwrap() {
            RequestOutcome::Cached(v) => v,
            RequestOutcome::Issue => {
                external_calls += 1;
                let v = JsonValue::Str("the summary".to_string());
                let (p, entry) = llm.record_response(&req, &v).unwrap();
                store.insert(p, entry);
                v
            }
        };
        let content = canonical_text(&response);
        outputs.push(StepFile::from_file("summary.txt", content.as_bytes()));
    }
    assert_eq!(external_calls, 1);
    assert_eq!(outputs[0], outputs[1]);
}

#[test]
fn model_names() {
    for m in ModelId::values() {
        assert_eq!(ModelId::from_str(&m.name()), Ok(m));
    }
    assert_eq!(ModelId::from_str("gpt-4"), Err(Error::InvalidModelName));
    for m in OpenAIModelId::all() {
        assert_eq!(OpenAIModelId::from_str(&m.name()), Ok(m));
    }
    assert_eq!(OpenAIModelId::from_str("gpt-4"), Err(Error::InvalidModelName));
    assert_eq!(ModelId::from_json(&JsonValue::Str("gpt-5-pro".to_string())), Ok(ModelId::Gpt5Pro));
    assert_eq!(ModelId::from_json(&JsonValue::Null), Err(Error::InvalidModelName));
}

#[test]
fn message_helpers() {
    let m = Message::user_message("hi");
    assert_eq!(m.role_as_string(), "user");
    assert!(m.as_assistant_message().is_none());
    assert!(m.clone().to_assistant_message().is_none());
}

#[test]
fn canonical_text_sorts_members() {
    let a = JsonValue::Object(vec![
        ("b".to_string(), JsonValue::Int(1)),
        ("a".to_string(), JsonValue::Array(vec![JsonValue::Bool(true), JsonValue::Null])),
        ("é".to_string(), JsonValue::Str("x".to_string())),
    ]);
    let b = JsonValue::Object(vec![
        ("é".to_string(), JsonValue::Str("x".to_string())),
        ("a".to_string(), JsonValue::Array(vec![JsonValue::Bool(true), JsonValue::Null])),
        ("b".to_string(), JsonValue::Int(1)),
    ]);
    assert_eq!(canonical_text(&a), r#"{"a":[true,null],"b":1,"é":"x"}"#);
    assert_eq!(canonical_text(&a), canonical_text(&b));
    let repeated = JsonValue::Object(vec![
        ("k".to_string(), JsonValue::Int(1)),
        ("k".to_string(), JsonValue::Int(2)),
    ]);
    assert_eq!(canonical_text(&repeated), r#"{"k":2}"#);
    assert_eq!(canonical_text(&JsonValue::Int(i64::MIN)), "-9223372036854775808");
    assert_eq!(canonical_text(&JsonValue::Number("1.5".to_string())), "1.5");
}
