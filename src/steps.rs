use vstd::prelude::*;
use vstd::string::StringExecFns;

use crate::json::{decimal, members_of, push_member, str_member, write_decimal, Json, JsonValue};
use crate::lifecycle::{
    evaluate_lifecycle, lifecycle_of, missing_of, opts_view, strs_view, write_step_state, Lifecycle,
    PipelineError, StepLifecycle, StepState,
};
use crate::types::model_id::str_eq;
use crate::types::ToJson;

verus! {

/// Creates the project configuration.
#[derive(Debug, Clone, Copy, PartialEq, Eq)]
pub struct ProjectInit;

/// Writes the book statement from the high-level description.
#[derive(Debug, Clone, Copy, PartialEq, Eq)]
pub struct BookStatement;

/// Adds a summary paragraph to the outline.
#[derive(Debug, Clone, Copy, PartialEq, Eq)]
pub struct GenerateSummaryParagraph;

/// Adds the design spine statement to the outline.
#[derive(Debug, Clone, Copy, PartialEq, Eq)]
pub struct DesignSpine;

/// Breaks every chapter of the outline into sections.
#[derive(Debug, Clone, Copy, PartialEq, Eq)]
pub struct GenerateChapterOutlines;

/// Breaks one chapter (counted from 1) into sections.
#[derive(Debug, Clone, Copy, PartialEq, Eq)]
pub struct GenerateChapter {
    pub chapter_index: usize,
}

/// Joins the outline with the sections of each of its chapters.
#[derive(Debug, Clone, Copy, PartialEq, Eq)]
pub struct CombineChapters {
    pub chapter_count: usize,
}

/// Rebuilds an outline's JSON form from its markdown; it keeps its own record of the
/// fingerprints of both files under `state_key`.
#[derive(Debug, Clone, PartialEq, Eq)]
pub struct RebuildBookOutlineJson {
    pub input_md: String,
    pub output_json: String,
    pub state_key: String,
}

/// The fingerprints that the rebuild step recorded for its two files.
#[derive(Debug, Clone, PartialEq, Eq)]
pub struct RebuildBookOutlineState {
    pub input_markdown_hash: String,
    pub output_json_hash: String,
}

/// The work a step does, one variant per kind of step.
#[derive(Debug, Clone, PartialEq, Eq)]
pub enum StepAction {
    ProjectInit(ProjectInit),
    BookStatement(BookStatement),
    RebuildBookOutlineJson(RebuildBookOutlineJson),
    GenerateSummaryParagraph(GenerateSummaryParagraph),
    DesignSpine(DesignSpine),
    GenerateChapterOutlines(GenerateChapterOutlines),
    GenerateChapter(GenerateChapter),
    CombineChapters(CombineChapters),
}

/// A named unit of work.
#[derive(Debug, Clone, PartialEq, Eq)]
pub struct Step {
    pub description: String,
    pub key: String,
    pub action: StepAction,
}

/// The name of the file holding the sections of chapter `i`.
pub open spec fn chapter_file(i: nat) -> Seq<char> {
    ".booker/chapter_"@ + decimal(i) + ".json"@
}

pub open spec fn combine_inputs(n: nat) -> Seq<Seq<char>> {
    seq!["book_outline_with_spine.json"@] + Seq::new(n, |k: int| chapter_file((k + 1) as nat))
}

/// The inputs that each kind of step declares.
pub open spec fn input_files_of(a: StepAction) -> Seq<Seq<char>> {
    match a {
        StepAction::ProjectInit(_) => Seq::empty(),
        StepAction::BookStatement(_) => seq!["book_highlevel.txt"@],
        StepAction::RebuildBookOutlineJson(r) => seq![r.input_md@],
        StepAction::GenerateSummaryParagraph(_) => seq!["book_highlevel.txt"@, "book_outline.json"@],
        StepAction::DesignSpine(_) => seq!["book_outline_with_summary.json"@],
        StepAction::GenerateChapterOutlines(_) => seq!["book_outline_with_summary.json"@],
        StepAction::GenerateChapter(_) => seq!["book_outline_with_spine.json"@],
        StepAction::CombineChapters(c) => combine_inputs(c.chapter_count as nat),
    }
}

impl CombineChapters {
    pub fn input_files(&self) -> (r: Vec<String>)
        requires
            self.chapter_count < usize::MAX,
        ensures
            strs_view(r@) == combine_inputs(self.chapter_count as nat),
    {
        let mut files: Vec<String> = Vec::new();
        files.push(String::from_str("book_outline_with_spine.json"));
        let mut i: usize = 1;
        while i <= self.chapter_count
            invariant
                1 <= i <= self.chapter_count + 1,
                self.chapter_count < usize::MAX,
                strs_view(files@) == combine_inputs((i - 1) as nat),
            decreases self.chapter_count + 1 - i,
        {
            let mut name = String::from_str(".booker/chapter_");
            write_decimal(i as u64, &mut name);
            name.append(".json");
            let ghost before = files@;
            files.push(name);
            proof {
                assert(strs_view(files@) =~= strs_view(before).push(chapter_file(i as nat)));
                assert(combine_inputs(i as nat) =~= combine_inputs((i - 1) as nat).push(
                    chapter_file(i as nat),
                ));
            }
            i = i + 1;
        }
        files
    }
}

impl StepAction {
    /// The declared inputs of this step.
    pub fn input_files(&self) -> (r: Vec<String>)
        requires
            self matches StepAction::CombineChapters(c) ==> c.chapter_count < usize::MAX,
        ensures
            strs_view(r@) == input_files_of(*self),
    {
        let r = match self {
            StepAction::ProjectInit(_) => Vec::new(),
            StepAction::BookStatement(_) => vec![String::from_str("book_highlevel.txt")],
            StepAction::RebuildBookOutlineJson(b) => vec![b.input_md.clone()],
            StepAction::GenerateSummaryParagraph(_) => vec![
                String::from_str("book_highlevel.txt"),
                String::from_str("book_outline.json"),
            ],
            StepAction::DesignSpine(_) => vec![String::from_str("book_outline_with_summary.json")],
            StepAction::GenerateChapterOutlines(_) => vec![
                String::from_str("book_outline_with_summary.json"),
            ],
            StepAction::GenerateChapter(_) => vec![String::from_str("book_outline_with_spine.json")],
            StepAction::CombineChapters(c) => c.input_files(),
        };
        assert(strs_view(r@) =~= input_files_of(*self));
        r
    }
}

impl RebuildBookOutlineJson {
    pub fn new(input_md: &str, output_json: &str, state_key: &str) -> (r: RebuildBookOutlineJson)
        ensures
            r.input_md@ == input_md@,
            r.output_json@ == output_json@,
            r.state_key@ == state_key@,
    {
        RebuildBookOutlineJson {
            input_md: String::from_str(input_md),
            output_json: String::from_str(output_json),
            state_key: String::from_str(state_key),
        }
    }

    /// The rebuild step's own lifecycle: runnable while its markdown exists, complete only
    /// when both files still have the fingerprints it recorded.
    pub fn get_lifecycle(
        &self,
        state: &Option<RebuildBookOutlineState>,
        markdown_hash: &Option<String>,
        json_hash: &Option<String>,
    ) -> (r: StepLifecycle)
        ensures
            r@ == rebuild_lifecycle_of(
                self.input_md@,
                match state {
                    Some(s) => Some((s.input_markdown_hash@, s.output_json_hash@)),
                    None => None,
                },
                match markdown_hash {
                    Some(h) => Some(h@),
                    None => None,
                },
                match json_hash {
                    Some(h) => Some(h@),
                    None => None,
                },
            ),
    {
        match markdown_hash {
            None => {
                let missing = vec![self.input_md.clone()];
                assert(strs_view(missing@) =~= seq![self.input_md@]);
                StepLifecycle::NotRunnable(missing)
            },
            Some(md) => match (state, json_hash) {
                (Some(s), Some(j)) => if str_eq(s.input_markdown_hash.as_str(), md.as_str()) && str_eq(
                    s.output_json_hash.as_str(),
                    j.as_str(),
                ) {
                    StepLifecycle::CompleteRunnable
                } else {
                    StepLifecycle::Runnable
                },
                _ => StepLifecycle::Runnable,
            },
        }
    }
}

/// The rebuild step's lifecycle from its recorded fingerprint pair and the live ones.
pub open spec fn rebuild_lifecycle_of(
    input_md: Seq<char>,
    state: Option<(Seq<char>, Seq<char>)>,
    markdown_hash: Option<Seq<char>>,
    json_hash: Option<Seq<char>>,
) -> Lifecycle {
    match markdown_hash {
        None => Lifecycle::NotRunnable(seq![input_md]),
        Some(md) => match (state, json_hash) {
            (Some(s), Some(j)) => if s.0 == md && s.1 == j {
                Lifecycle::CompleteRunnable
            } else {
                Lifecycle::Runnable
            },
            _ => Lifecycle::Runnable,
        },
    }
}

impl ToJson for RebuildBookOutlineState {
    open spec fn json_spec(&self) -> Json {
        Json::Object(
            seq![
                ("input_markdown_hash"@, Json::Str(self.input_markdown_hash@)),
                ("output_json_hash"@, Json::Str(self.output_json_hash@)),
            ],
        )
    }

    fn to_json(&self) -> (r: JsonValue) {
        let mut members: Vec<(String, JsonValue)> = Vec::new();
        push_member(&mut members, "input_markdown_hash", JsonValue::Str(self.input_markdown_hash.clone()));
        push_member(&mut members, "output_json_hash", JsonValue::Str(self.output_json_hash.clone()));
        assert(members_of(members@) =~= seq![
            ("input_markdown_hash"@, Json::Str(self.input_markdown_hash@)),
            ("output_json_hash"@, Json::Str(self.output_json_hash@)),
        ]);
        JsonValue::Object(members)
    }
}

impl RebuildBookOutlineState {
    /// Reads the recorded pair; both fingerprints must be strings.
    pub fn from_json(v: &JsonValue) -> (r: Result<RebuildBookOutlineState, PipelineError>)
        ensures
            match (str_member(v@, "input_markdown_hash"@), str_member(v@, "output_json_hash"@)) {
                (Some(m), Some(j)) => (r matches Ok(s) && s.input_markdown_hash@ == m
                    && s.output_json_hash@ == j),
                _ => r == Err::<RebuildBookOutlineState, PipelineError>(PipelineError::CorruptState),
            },
    {
        match (v.get_str("input_markdown_hash"), v.get_str("output_json_hash")) {
            (Some(input_markdown_hash), Some(output_json_hash)) => Ok(
                RebuildBookOutlineState { input_markdown_hash, output_json_hash },
            ),
            _ => Err(PipelineError::CorruptState),
        }
    }
}

pub fn step(description: &str, key: &str, action: StepAction) -> (r: Step)
    ensures
        r.description@ == description@,
        r.key@ == key@,
        r.action == action,
{
    Step { description: String::from_str(description), key: String::from_str(key), action }
}

/// The lifecycle a step has, given what was observed for the files it depends on.
pub open spec fn step_lifecycle_of(
    a: StepAction,
    observed: Seq<Option<Seq<char>>>,
    has_manifest: bool,
    rebuild_state: Option<(Seq<char>, Seq<char>)>,
) -> Lifecycle {
    match a {
        StepAction::RebuildBookOutlineJson(b) => rebuild_lifecycle_of(
            b.input_md@,
            rebuild_state,
            observed[0],
            observed[1],
        ),
        _ => lifecycle_of(missing_of(input_files_of(a), observed), has_manifest),
    }
}

/// The files whose fingerprints a step's lifecycle is computed from.
pub open spec fn observed_files_of(a: StepAction) -> Seq<Seq<char>> {
    match a {
        StepAction::RebuildBookOutlineJson(b) => seq![b.input_md@, b.output_json@],
        _ => input_files_of(a),
    }
}

impl Step {
    /// The default lifecycle: from the declared inputs and the presence of a manifest.
    pub fn get_lifecycle_by_files_and_state_json(
        input_files: &Vec<String>,
        observed: &Vec<Option<String>>,
        has_manifest: bool,
    ) -> (r: StepLifecycle)
        requires
            observed.len() == input_files.len(),
        ensures
            r@ == lifecycle_of(missing_of(strs_view(input_files@), opts_view(observed@)), has_manifest),
    {
        evaluate_lifecycle(input_files, observed, has_manifest)
    }

    /// The files to fingerprint before asking for this step's lifecycle.
    pub fn observed_files(&self) -> (r: Vec<String>)
        requires
            self.action matches StepAction::CombineChapters(c) ==> c.chapter_count < usize::MAX,
        ensures
            strs_view(r@) == observed_files_of(self.action),
    {
        match &self.action {
            StepAction::RebuildBookOutlineJson(b) => {
                let r = vec![b.input_md.clone(), b.output_json.clone()];
                assert(strs_view(r@) =~= observed_files_of(self.action));
                r
            },
            _ => self.action.input_files(),
        }
    }

    /// This step's lifecycle, from the fingerprints observed for `observed_files` (`None`
    /// for a missing file), whether its manifest exists, and, for the rebuild step, its
    /// own recorded pair.
    pub fn get_lifecycle(
        &self,
        observed: &Vec<Option<String>>,
        has_manifest: bool,
        rebuild_state: &Option<RebuildBookOutlineState>,
    ) -> (r: StepLifecycle)
        requires
            self.action matches StepAction::CombineChapters(c) ==> c.chapter_count < usize::MAX,
            observed.len() == observed_files_of(self.action).len(),
        ensures
            r@ == step_lifecycle_of(
                self.action,
                opts_view(observed@),
                has_manifest,
                match rebuild_state {
                    Some(s) => Some((s.input_markdown_hash@, s.output_json_hash@)),
                    None => None,
                },
            ),
    {
        match &self.action {
            StepAction::RebuildBookOutlineJson(b) => b.get_lifecycle(rebuild_state, &observed[0], &observed[1]),
            _ => {
                let files = self.action.input_files();
                evaluate_lifecycle(&files, observed, has_manifest)
            },
        }
    }

    /// Whether the step may run now: it runs from `Runnable` and `CompleteRunnable`, and
    /// otherwise fails with the missing inputs, doing nothing.
    pub fn begin_run(&self, lifecycle: &StepLifecycle) -> (r: Result<(), PipelineError>)
        ensures
            match lifecycle {
                StepLifecycle::Runnable => r is Ok,
                StepLifecycle::CompleteRunnable => r is Ok,
                StepLifecycle::NotRunnable(m) => (r matches Err(PipelineError::MissingDependencies(x))
                    && strs_view(x@) == strs_view(m@)),
                StepLifecycle::CompleteNotRunnable(m) => (r matches Err(
                    PipelineError::MissingDependencies(x),
                ) && strs_view(x@) == strs_view(m@)),
            },
    {
        match lifecycle {
            StepLifecycle::Runnable => Ok(()),
            StepLifecycle::CompleteRunnable => Ok(()),
            StepLifecycle::NotRunnable(m) => Err(PipelineError::MissingDependencies(clone_strings(m))),
            StepLifecycle::CompleteNotRunnable(m) => Err(PipelineError::MissingDependencies(clone_strings(m))),
        }
    }

    /// What to persist once the step's work is done: the manifest it produced, replacing
    /// the earlier one; when the work failed, nothing, so the lifecycle stays as it was.
    pub fn finish_run(&self, outcome: Option<StepState>) -> (r: Result<(String, JsonValue), PipelineError>)
        ensures
            match outcome {
                Some(s) => (r matches Ok(w) && w.0@ == crate::lifecycle::step_state_path_of(s.key@)
                    && w.1@ == s.json_spec()),
                None => r == Err::<(String, JsonValue), PipelineError>(PipelineError::StepFailed),
            },
    {
        match outcome {
            Some(s) => Ok(write_step_state(&s)),
            None => Err(PipelineError::StepFailed),
        }
    }
}

fn clone_strings(v: &Vec<String>) -> (r: Vec<String>)
    ensures
        strs_view(r@) == strs_view(v@),
{
    let mut r: Vec<String> = Vec::new();
    let mut i: usize = 0;
    while i < v.len()
        invariant
            i <= v.len(),
            r@ == v@.take(i as int),
        decreases v.len() - i,
    {
        r.push(v[i].clone());
        i = i + 1;
        assert(r@ =~= v@.take(i as int));
    }
    assert(v@.take(v.len() as int) =~= v@);
    r
}

/// The symbol shown for a lifecycle when listing steps.
pub fn lifecycle_symbol(lifecycle: &StepLifecycle) -> (r: &'static str)
    ensures
        r@ == match lifecycle {
            StepLifecycle::NotRunnable(_) => "."@,
            StepLifecycle::Runnable => ">"@,
            StepLifecycle::CompleteRunnable => "\u{2713}"@,
            StepLifecycle::CompleteNotRunnable(_) => "?"@,
        },
{
    match lifecycle {
        StepLifecycle::NotRunnable(_) => ".",
        StepLifecycle::Runnable => ">",
        StepLifecycle::CompleteRunnable => "\u{2713}",
        StepLifecycle::CompleteNotRunnable(_) => "?",
    }
}


/// The keys of the steps that are always registered, in order.
pub open spec fn fixed_step_keys() -> Seq<Seq<char>> {
    seq![
        "init"@,
        "initialize"@,
        "rebuild_outline_json"@,
        "generate_summary"@,
        "rebuild_outline_json_2"@,
        "design_spine"@,
        "rebuild_outline_json_3"@,
    ]
}

pub open spec fn chapter_step_key(i: nat) -> Seq<char> {
    "generate_chapter_"@ + decimal(i)
}

/// The keys of all registered steps when the outline has `n` chapters: the fixed steps,
/// then, when there are chapters, one step per chapter and the step that combines them.
pub open spec fn registered_step_keys(n: nat) -> Seq<Seq<char>> {
    if n == 0 {
        fixed_step_keys()
    } else {
        fixed_step_keys() + Seq::new(n, |k: int| chapter_step_key((k + 1) as nat)) + seq![
            "combine_chapters"@,
        ]
    }
}

/// A rebuild action over the given files.
pub open spec fn is_rebuild(a: StepAction, md: Seq<char>, json: Seq<char>, state_key: Seq<char>) -> bool {
    a matches StepAction::RebuildBookOutlineJson(b) && b.input_md@ == md && b.output_json@ == json
        && b.state_key@ == state_key
}

/// The registered steps, derived from the number of chapters in the outline.
pub fn all_steps(chapter_count: usize) -> (r: Vec<Step>)
    requires
        chapter_count < usize::MAX - 8,
    ensures
        r@.len() == registered_step_keys(chapter_count as nat).len(),
        forall|i: int| 0 <= i < r@.len() ==> (#[trigger] r@[i]).key@ == registered_step_keys(chapter_count as nat)[i],
        r@[0].action == StepAction::ProjectInit(ProjectInit),
        r@[1].action == StepAction::BookStatement(BookStatement),
        is_rebuild(r@[2].action, "book_outline.md"@, "book_outline.json"@, "rebuild_outline_json_custom"@),
        r@[3].action == StepAction::GenerateSummaryParagraph(GenerateSummaryParagraph),
        is_rebuild(
            r@[4].action,
            "book_outline_with_summary.md"@,
            "book_outline_with_summary.json"@,
            "rebuild_outline_json_2_custom"@,
        ),
        r@[5].action == StepAction::DesignSpine(DesignSpine),
        is_rebuild(
            r@[6].action,
            "book_outline_with_spine.md"@,
            "book_outline_with_spine.json"@,
            "rebuild_outline_json_3_custom"@,
        ),
        forall|j: int|
            1 <= j <= chapter_count ==> (#[trigger] r@[6 + j]).action == StepAction::GenerateChapter(
                GenerateChapter { chapter_index: j as usize },
            ) && r@[6 + j].description@ == "Generate chapter "@ + decimal(j as nat),
        chapter_count > 0 ==> r@[7 + chapter_count].action == StepAction::CombineChapters(
            CombineChapters { chapter_count },
        ),
{
    let mut steps: Vec<Step> = Vec::new();
    steps.push(step("Initialize the project", "init", StepAction::ProjectInit(ProjectInit)));
    steps.push(step("Initialize the book statement", "initialize", StepAction::BookStatement(BookStatement)));
    steps.push(
        step(
            "Rebuild book_outline JSON from markdown",
            "rebuild_outline_json",
            StepAction::RebuildBookOutlineJson(
                RebuildBookOutlineJson::new("book_outline.md", "book_outline.json", "rebuild_outline_json_custom"),
            ),
        ),
    );
    steps.push(
        step(
            "Generate summary paragraph",
            "generate_summary",
            StepAction::GenerateSummaryParagraph(GenerateSummaryParagraph),
        ),
    );
    steps.push(
        step(
            "Rebuild book_outline_with_summary JSON from markdown",
            "rebuild_outline_json_2",
            StepAction::RebuildBookOutlineJson(
                RebuildBookOutlineJson::new(
                    "book_outline_with_summary.md",
                    "book_outline_with_summary.json",
                    "rebuild_outline_json_2_custom",
                ),
            ),
        ),
    );
    steps.push(step("Generate design spine statement", "design_spine", StepAction::DesignSpine(DesignSpine)));
    steps.push(
        step(
            "Rebuild book_outline_with_spine JSON from markdown",
            "rebuild_outline_json_3",
            StepAction::RebuildBookOutlineJson(
                RebuildBookOutlineJson::new(
                    "book_outline_with_spine.md",
                    "book_outline_with_spine.json",
                    "rebuild_outline_json_3_custom",
                ),
            ),
        ),
    );
    let ghost keys = registered_step_keys(chapter_count as nat);
    assert(forall|i: int| 0 <= i < 7 ==> (#[trigger] steps@[i]).key@ == fixed_step_keys()[i]);
    if chapter_count > 0 {
        let mut i: usize = 1;
        while i <= chapter_count
            invariant
                1 <= i <= chapter_count + 1,
                chapter_count < usize::MAX - 8,
                steps@.len() == 6 + i,
                forall|k: int| 0 <= k < 7 ==> (#[trigger] steps@[k]).key@ == fixed_step_keys()[k],
                steps@[0].action == StepAction::ProjectInit(ProjectInit),
                steps@[1].action == StepAction::BookStatement(BookStatement),
                is_rebuild(steps@[2].action, "book_outline.md"@, "book_outline.json"@, "rebuild_outline_json_custom"@),
                steps@[3].action == StepAction::GenerateSummaryParagraph(GenerateSummaryParagraph),
                is_rebuild(
                    steps@[4].action,
                    "book_outline_with_summary.md"@,
                    "book_outline_with_summary.json"@,
                    "rebuild_outline_json_2_custom"@,
                ),
                steps@[5].action == StepAction::DesignSpine(DesignSpine),
                is_rebuild(
                    steps@[6].action,
                    "book_outline_with_spine.md"@,
                    "book_outline_with_spine.json"@,
                    "rebuild_outline_json_3_custom"@,
                ),
                forall|j: int|
                    1 <= j < i ==> (#[trigger] steps@[6 + j]).key@ == chapter_step_key(j as nat)
                        && steps@[6 + j].action == StepAction::GenerateChapter(
                        GenerateChapter { chapter_index: j as usize },
                    ) && steps@[6 + j].description@ == "Generate chapter "@ + decimal(j as nat),
            decreases chapter_count + 1 - i,
        {
            let mut description = String::from_str("Generate chapter ");
            write_decimal(i as u64, &mut description);
            let mut key = String::from_str("generate_chapter_");
            write_decimal(i as u64, &mut key);
            steps.push(
                Step {
                    description,
                    key,
                    action: StepAction::GenerateChapter(GenerateChapter { chapter_index: i }),
                },
            );
            i = i + 1;
        }
        steps.push(
            step(
                "Combine chapter outlines",
                "combine_chapters",
                StepAction::CombineChapters(CombineChapters { chapter_count }),
            ),
        );
        proof {
            assert forall|i: int| 0 <= i < steps@.len() implies (#[trigger] steps@[i]).key@ == keys[i] by {
                if 7 <= i < 7 + chapter_count {
                    assert(steps@[6 + (i - 6)] == steps@[i]);
                }
            }
        }
    }
    steps
}

} // verus!
