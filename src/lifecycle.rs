use vstd::prelude::*;
use vstd::string::StringExecFns;

use crate::fingerprint::{fingerprint, fingerprint_of, MAX_DIGEST_INPUT};
use crate::json::{
    items_of, lemma_items_index, lemma_items_len, lookup, members_of, push_item, push_member,
    str_member, Json, JsonValue,
};
use crate::types::ToJson;

verus! {

/// The errors of the step pipeline.
#[derive(Debug, Clone, PartialEq, Eq)]
pub enum PipelineError {
    /// A persisted document exists but does not have the expected shape.
    CorruptState,
    /// A cached entry was found whose stored request differs from the live request.
    CacheCorruption,
    /// The step cannot run: these declared inputs are missing.
    MissingDependencies(Vec<String>),
    /// The step's own work failed; nothing was persisted.
    StepFailed,
    /// The cache root is not a directory.
    NotADirectory,
    /// A text is too long to be fingerprinted.
    InputTooLong,
}

/// The observed content of one file: its name and fingerprint.
#[derive(Debug, Clone, PartialEq, Eq)]
pub struct StepFile {
    pub filename: String,
    pub hash: String,
}

/// The manifest of a step's last successful run.
#[derive(Debug, Clone, PartialEq, Eq)]
pub struct StepState {
    pub key: String,
    pub inputs: Vec<StepFile>,
    pub outputs: Vec<StepFile>,
}

#[derive(Debug, Clone, Copy, PartialEq, Eq)]
pub enum FileState {
    Matching,
    Missing,
    Changed,
}

/// Whether a step can run, and whether it has completed before.
#[derive(Debug, Clone, PartialEq, Eq)]
pub enum StepLifecycle {
    NotRunnable(Vec<String>),
    Runnable,
    CompleteRunnable,
    CompleteNotRunnable(Vec<String>),
}

/// The model of a lifecycle: missing inputs as character sequences.
pub enum Lifecycle {
    NotRunnable(Seq<Seq<char>>),
    Runnable,
    CompleteRunnable,
    CompleteNotRunnable(Seq<Seq<char>>),
}

pub open spec fn strs_view(v: Seq<String>) -> Seq<Seq<char>> {
    v.map_values(|s: String| s@)
}

pub open spec fn opts_view(v: Seq<Option<String>>) -> Seq<Option<Seq<char>>> {
    v.map_values(
        |o: Option<String>|
            match o {
                Some(s) => Some(s@),
                None => None,
            },
    )
}

impl View for StepLifecycle {
    type V = Lifecycle;

    open spec fn view(&self) -> Lifecycle {
        match self {
            StepLifecycle::NotRunnable(m) => Lifecycle::NotRunnable(strs_view(m@)),
            StepLifecycle::Runnable => Lifecycle::Runnable,
            StepLifecycle::CompleteRunnable => Lifecycle::CompleteRunnable,
            StepLifecycle::CompleteNotRunnable(m) => Lifecycle::CompleteNotRunnable(strs_view(m@)),
        }
    }
}

/// The declared inputs that were not found, in declaration order.
pub open spec fn missing_of(files: Seq<Seq<char>>, observed: Seq<Option<Seq<char>>>) -> Seq<Seq<char>>
    decreases files.len(),
{
    if files.len() == 0 {
        Seq::empty()
    } else {
        let rest = missing_of(files.drop_last(), observed);
        if observed[files.len() - 1] is None {
            rest.push(files.last())
        } else {
            rest
        }
    }
}

/// The lifecycle that the missing inputs and the presence of a manifest dictate.
pub open spec fn lifecycle_of(missing: Seq<Seq<char>>, has_manifest: bool) -> Lifecycle {
    if !has_manifest {
        if missing.len() == 0 {
            Lifecycle::Runnable
        } else {
            Lifecycle::NotRunnable(missing)
        }
    } else {
        if missing.len() == 0 {
            Lifecycle::CompleteRunnable
        } else {
            Lifecycle::CompleteNotRunnable(missing)
        }
    }
}

proof fn lemma_missing_prefix(files: Seq<Seq<char>>, observed: Seq<Option<Seq<char>>>, i: int)
    requires
        0 <= i < files.len(),
    ensures
        missing_of(files.take(i + 1), observed) == if observed[i] is None {
            missing_of(files.take(i), observed).push(files[i])
        } else {
            missing_of(files.take(i), observed)
        },
{
    assert(files.take(i + 1).drop_last() =~= files.take(i));
}

/// Classifies a step from the fingerprints observed for its declared inputs (`None` for an
/// input that is not there) and whether a manifest of an earlier run exists.
pub fn evaluate_lifecycle(input_files: &Vec<String>, observed: &Vec<Option<String>>, has_manifest: bool) -> (r: StepLifecycle)
    requires
        observed.len() == input_files.len(),
    ensures
        r@ == lifecycle_of(missing_of(strs_view(input_files@), opts_view(observed@)), has_manifest),
{
    let ghost files = strs_view(input_files@);
    let ghost obs = opts_view(observed@);
    let mut missing: Vec<String> = Vec::new();
    let mut i: usize = 0;
    proof {
        assert(files.take(0) =~= Seq::<Seq<char>>::empty());
        assert(strs_view(missing@) =~= Seq::<Seq<char>>::empty());
    }
    while i < input_files.len()
        invariant
            i <= input_files.len(),
            observed.len() == input_files.len(),
            files == strs_view(input_files@),
            obs == opts_view(observed@),
            strs_view(missing@) == missing_of(files.take(i as int), obs),
        decreases input_files.len() - i,
    {
        proof {
            lemma_missing_prefix(files, obs, i as int);
        }
        if observed[i].is_none() {
            let ghost before = missing@;
            missing.push(input_files[i].clone());
            proof {
                assert(strs_view(missing@) =~= strs_view(before).push(files[i as int]));
            }
        }
        i = i + 1;
    }
    proof {
        assert(files.take(input_files.len() as int) =~= files);
    }
    if !has_manifest {
        if missing.len() == 0 {
            StepLifecycle::Runnable
        } else {
            StepLifecycle::NotRunnable(missing)
        }
    } else {
        if missing.len() == 0 {
            StepLifecycle::CompleteRunnable
        } else {
            StepLifecycle::CompleteNotRunnable(missing)
        }
    }
}

/// The fingerprint of a file's content, or `None` when the file is not there.
pub fn try_get_file_hash(content: Option<&[u8]>) -> (r: Option<String>)
    requires
        content matches Some(c) ==> c@.len() <= MAX_DIGEST_INPUT as int,
    ensures
        match content {
            Some(c) => r matches Some(h) && h@ == fingerprint_of(c@),
            None => r is None,
        },
{
    match content {
        Some(c) => Some(fingerprint(c)),
        None => None,
    }
}

pub open spec fn file_state_of(actual: Option<Seq<char>>, expected: Seq<char>) -> FileState {
    match actual {
        None => FileState::Missing,
        Some(h) => if h == expected {
            FileState::Matching
        } else {
            FileState::Changed
        },
    }
}

/// Compares a file's observed fingerprint (`None` when missing) with the recorded one.
pub fn get_file_state(actual_hash: &Option<String>, expected_hash: &str) -> (r: FileState)
    ensures
        r == file_state_of(
            match actual_hash {
                Some(h) => Some(h@),
                None => None,
            },
            expected_hash@,
        ),
{
    match actual_hash {
        None => FileState::Missing,
        Some(h) => if crate::types::model_id::str_eq(h.as_str(), expected_hash) {
            FileState::Matching
        } else {
            FileState::Changed
        },
    }
}

pub open spec fn any_missing(observed: Seq<Option<Seq<char>>>) -> bool {
    exists|i: int| 0 <= i < observed.len() && (#[trigger] observed[i]) is None
}

pub open spec fn any_changed(inputs: Seq<StepFile>, observed: Seq<Option<Seq<char>>>) -> bool {
    exists|i: int|
        0 <= i < observed.len() && ((#[trigger] observed[i]) matches Some(h) && h != inputs[i].hash@)
}

/// The state of a set of recorded inputs: `Missing` over `Changed` over `Matching`.
pub fn get_input_state(inputs: &Vec<StepFile>, observed: &Vec<Option<String>>) -> (r: FileState)
    requires
        observed.len() == inputs.len(),
    ensures
        r == if any_missing(opts_view(observed@)) {
            FileState::Missing
        } else if any_changed(inputs@, opts_view(observed@)) {
            FileState::Changed
        } else {
            FileState::Matching
        },
{
    let ghost obs = opts_view(observed@);
    let mut missing = false;
    let mut changed = false;
    let mut i: usize = 0;
    while i < inputs.len()
        invariant
            i <= inputs.len(),
            observed.len() == inputs.len(),
            obs == opts_view(observed@),
            missing == exists|k: int| 0 <= k < i && (#[trigger] obs[k]) is None,
            changed == exists|k: int| 0 <= k < i && ((#[trigger] obs[k]) matches Some(h) && h != inputs@[k].hash@),
        decreases inputs.len() - i,
    {
        match get_file_state(&observed[i], inputs[i].hash.as_str()) {
            FileState::Missing => {
                missing = true;
            },
            FileState::Changed => {
                changed = true;
            },
            FileState::Matching => {},
        }
        i = i + 1;
        proof {
            assert(obs[i - 1] == match observed@[i - 1] {
                Some(h) => Some(h@),
                None => None::<Seq<char>>,
            });
        }
    }
    if missing {
        FileState::Missing
    } else if changed {
        FileState::Changed
    } else {
        FileState::Matching
    }
}

/// Whether a recorded file is still there with the recorded fingerprint.
pub fn is_file_entry_clean(s: &StepFile, observed: &Option<String>) -> (r: bool)
    ensures
        r == (observed matches Some(h) && h@ == s.hash@),
{
    match observed {
        Some(h) => crate::types::model_id::str_eq(h.as_str(), s.hash.as_str()),
        None => false,
    }
}

impl StepFile {
    /// Records a file with the fingerprint of its content.
    pub fn from_file(filename: &str, content: &[u8]) -> (r: StepFile)
        requires
            content@.len() <= MAX_DIGEST_INPUT as int,
        ensures
            r.filename@ == filename@,
            r.hash@ == fingerprint_of(content@),
    {
        StepFile { filename: String::from_str(filename), hash: fingerprint(content) }
    }
}


impl ToJson for StepFile {
    open spec fn json_spec(&self) -> Json {
        Json::Object(seq![("filename"@, Json::Str(self.filename@)), ("hash"@, Json::Str(self.hash@))])
    }

    fn to_json(&self) -> (r: JsonValue) {
        let mut members: Vec<(String, JsonValue)> = Vec::new();
        push_member(&mut members, "filename", JsonValue::Str(self.filename.clone()));
        push_member(&mut members, "hash", JsonValue::Str(self.hash.clone()));
        assert(members_of(members@) =~= seq![
            ("filename"@, Json::Str(self.filename@)),
            ("hash"@, Json::Str(self.hash@)),
        ]);
        JsonValue::Object(members)
    }
}

pub open spec fn files_json(fs: Seq<StepFile>) -> Seq<Json> {
    fs.map_values(|f: StepFile| f.json_spec())
}

/// The name and fingerprint read from a file record.
pub open spec fn file_fields(j: Json) -> Option<(Seq<char>, Seq<char>)> {
    match (str_member(j, "filename"@), str_member(j, "hash"@)) {
        (Some(n), Some(h)) => Some((n, h)),
        _ => None,
    }
}

pub open spec fn all_files(items: Seq<Json>) -> bool {
    forall|i: int| 0 <= i < items.len() ==> (#[trigger] file_fields(items[i])) is Some
}

/// `fs` holds, in order, the file records read from `items`.
pub open spec fn files_read(items: Seq<Json>, fs: Seq<StepFile>) -> bool {
    &&& fs.len() == items.len()
    &&& forall|i: int|
        0 <= i < items.len() ==> file_fields(items[i]) == Some(
            ((#[trigger] fs[i]).filename@, fs[i].hash@),
        )
}

/// What reading `v` as a manifest gives: a string `key` and arrays `inputs` and `outputs`
/// of file records; any other shape is corrupt.
pub open spec fn manifest_read(v: Json, r: Result<StepState, PipelineError>) -> bool {
    match (str_member(v, "key"@), crate::json::member(v, "inputs"@), crate::json::member(v, "outputs"@)) {
        (Some(k), Some(Json::Array(ins)), Some(Json::Array(outs))) => if all_files(ins) && all_files(
            outs,
        ) {
            r matches Ok(s) && s.key@ == k && files_read(ins, s.inputs@) && files_read(outs, s.outputs@)
        } else {
            r == Err::<StepState, PipelineError>(PipelineError::CorruptState)
        },
        _ => r == Err::<StepState, PipelineError>(PipelineError::CorruptState),
    }
}

fn files_to_json(fs: &Vec<StepFile>) -> (r: JsonValue)
    ensures
        r@ == Json::Array(files_json(fs@)),
{
    let mut items: Vec<JsonValue> = Vec::new();
    let mut i: usize = 0;
    while i < fs.len()
        invariant
            i <= fs.len(),
            items_of(items@) == files_json(fs@.take(i as int)),
        decreases fs.len() - i,
    {
        push_item(&mut items, fs[i].to_json());
        i = i + 1;
        proof {
            assert(files_json(fs@.take(i as int)) =~= files_json(fs@.take(i - 1)).push(
                fs@[i - 1].json_spec(),
            ));
        }
    }
    proof {
        assert(fs@.take(fs.len() as int) =~= fs@);
    }
    JsonValue::Array(items)
}

fn files_from_json(items: &Vec<JsonValue>) -> (r: Option<Vec<StepFile>>)
    ensures
        all_files(items_of(items@)) ==> (r matches Some(fs) && files_read(items_of(items@), fs@)),
        !all_files(items_of(items@)) ==> r is None,
{
    let mut fs: Vec<StepFile> = Vec::new();
    let mut i: usize = 0;
    while i < items.len()
        invariant
            i <= items.len(),
            fs@.len() == i,
            forall|k: int|
                0 <= k < i ==> file_fields(items_of(items@)[k]) == Some(
                    ((#[trigger] fs@[k]).filename@, fs@[k].hash@),
                ),
        decreases items.len() - i,
    {
        proof {
            lemma_items_index(items@, i as int);
        }
        match (items[i].get_str("filename"), items[i].get_str("hash")) {
            (Some(filename), Some(hash)) => {
                fs.push(StepFile { filename, hash });
            },
            _ => {
                proof {
                    assert(file_fields(items_of(items@)[i as int]) is None);
                }
                return None;
            },
        }
        i = i + 1;
    }
    proof {
        lemma_items_len(items@);
        assert forall|k: int| 0 <= k < items_of(items@).len() implies (#[trigger] file_fields(
            items_of(items@)[k],
        )) is Some by {
            assert(file_fields(items_of(items@)[k]) == Some((fs@[k].filename@, fs@[k].hash@)));
        }
    }
    Some(fs)
}

impl StepState {
    pub fn from_json(v: &JsonValue) -> (r: Result<StepState, PipelineError>)
        ensures
            manifest_read(v@, r),
    {
        let key = match v.get_str("key") {
            Some(k) => k,
            None => return Err(PipelineError::CorruptState),
        };
        let inputs = match v.get("inputs") {
            Some(JsonValue::Array(items)) => match files_from_json(items) {
                Some(fs) => fs,
                None => return Err(PipelineError::CorruptState),
            },
            _ => return Err(PipelineError::CorruptState),
        };
        let outputs = match v.get("outputs") {
            Some(JsonValue::Array(items)) => match files_from_json(items) {
                Some(fs) => fs,
                None => return Err(PipelineError::CorruptState),
            },
            _ => return Err(PipelineError::CorruptState),
        };
        Ok(StepState { key, inputs, outputs })
    }
}

impl ToJson for StepState {
    open spec fn json_spec(&self) -> Json {
        Json::Object(
            seq![
                ("key"@, Json::Str(self.key@)),
                ("inputs"@, Json::Array(files_json(self.inputs@))),
                ("outputs"@, Json::Array(files_json(self.outputs@))),
            ],
        )
    }

    fn to_json(&self) -> (r: JsonValue) {
        let mut members: Vec<(String, JsonValue)> = Vec::new();
        push_member(&mut members, "key", JsonValue::Str(self.key.clone()));
        push_member(&mut members, "inputs", files_to_json(&self.inputs));
        push_member(&mut members, "outputs", files_to_json(&self.outputs));
        assert(members_of(members@) =~= seq![
            ("key"@, Json::Str(self.key@)),
            ("inputs"@, Json::Array(files_json(self.inputs@))),
            ("outputs"@, Json::Array(files_json(self.outputs@))),
        ]);
        JsonValue::Object(members)
    }
}

/// Where the manifest of step `key` is persisted.
pub open spec fn step_state_path_of(key: Seq<char>) -> Seq<char> {
    ".booker/"@ + key + ".stepstate.json"@
}

pub fn step_state_path(key: &str) -> (r: String)
    ensures
        r@ == step_state_path_of(key@),
{
    let mut path = String::from_str(".booker/");
    path.append(key);
    path.append(".stepstate.json");
    path
}

/// Reads a persisted manifest: `None` when none was persisted, `CorruptState` when the
/// document has another shape.
pub fn load_step_state(document: Option<&JsonValue>) -> (r: Result<Option<StepState>, PipelineError>)
    ensures
        match document {
            None => r == Ok::<Option<StepState>, PipelineError>(None),
            Some(d) => match r {
                Ok(Some(s)) => manifest_read(d@, Ok(s)),
                Ok(None) => false,
                Err(e) => manifest_read(d@, Err(e)),
            },
        },
{
    match document {
        None => Ok(None),
        Some(d) => match StepState::from_json(d) {
            Ok(s) => Ok(Some(s)),
            Err(e) => Err(e),
        },
    }
}

/// The path and document under which a manifest is persisted, replacing any earlier one
/// for the same key.
pub fn write_step_state(step_state: &StepState) -> (r: (String, JsonValue))
    ensures
        r.0@ == step_state_path_of(step_state.key@),
        r.1@ == step_state.json_spec(),
{
    (step_state_path(step_state.key.as_str()), step_state.to_json())
}

proof fn lemma_file_round_trip(f: StepFile)
    ensures
        file_fields(f.json_spec()) == Some((f.filename@, f.hash@)),
{
    reveal_strlit("filename");
    reveal_strlit("hash");
    assert("filename"@.len() == 8 && "hash"@.len() == 4);
    reveal_with_fuel(lookup, 3);
}

proof fn lemma_files_round_trip(fs: Seq<StepFile>)
    ensures
        all_files(files_json(fs)),
        files_read(files_json(fs), fs),
{
    assert forall|i: int| 0 <= i < fs.len() implies file_fields(#[trigger] files_json(fs)[i]) == Some(
        (fs[i].filename@, fs[i].hash@),
    ) by {
        lemma_file_round_trip(fs[i]);
    }
}

/// A manifest read back from the document it was persisted as has the same key and the
/// same input and output records.
pub proof fn lemma_manifest_round_trip(s: StepState)
    ensures
        manifest_read(s.json_spec(), Ok(s)),
{
    reveal_strlit("key");
    reveal_strlit("inputs");
    reveal_strlit("outputs");
    assert("key"@.len() == 3 && "inputs"@.len() == 6 && "outputs"@.len() == 7);
    reveal_with_fuel(lookup, 4);
    lemma_files_round_trip(s.inputs@);
    lemma_files_round_trip(s.outputs@);
}


proof fn lemma_missing_empty(files: Seq<Seq<char>>, observed: Seq<Option<Seq<char>>>)
    requires
        observed.len() >= files.len(),
    ensures
        missing_of(files, observed).len() == 0 <==> forall|i: int| 0 <= i < files.len() ==> (#[trigger] observed[i]) is Some,
        missing_of(files, observed).len() <= files.len(),
    decreases files.len(),
{
    if files.len() > 0 {
        lemma_missing_empty(files.drop_last(), observed);
        if missing_of(files.drop_last(), observed).len() == 0 && observed[files.len() - 1] is Some {
            assert forall|i: int| 0 <= i < files.len() implies (#[trigger] observed[i]) is Some by {
                if i < files.len() - 1 {
                    assert(files.drop_last().len() == files.len() - 1);
                }
            }
        }
    }
}

proof fn lemma_missing_members(files: Seq<Seq<char>>, observed: Seq<Option<Seq<char>>>, k: int)
    requires
        observed.len() >= files.len(),
        0 <= k < missing_of(files, observed).len(),
    ensures
        exists|i: int| 0 <= i < files.len() && files[i] == missing_of(files, observed)[k] && (#[trigger] observed[i]) is None,
    decreases files.len(),
{
    if files.len() > 0 {
        lemma_missing_empty(files.drop_last(), observed);
        let rest = missing_of(files.drop_last(), observed);
        if k < rest.len() {
            lemma_missing_members(files.drop_last(), observed, k);
            let i = choose|i: int| 0 <= i < files.drop_last().len() && files.drop_last()[i] == rest[k] && (#[trigger] observed[i]) is None;
            assert(files[i] == rest[k]);
        } else {
            assert(observed[files.len() - 1] is None);
        }
    }
}

/// `f` is one of the declared inputs, and it was not found.
pub open spec fn declared_and_absent(files: Seq<Seq<char>>, observed: Seq<Option<Seq<char>>>, f: Seq<char>) -> bool {
    exists|i: int| 0 <= i < files.len() && files[i] == f && (#[trigger] observed[i]) is None
}

/// Every combination of manifest presence and input presence gives exactly one state:
/// no manifest and all inputs present is `Runnable`; a manifest and all inputs present is
/// `CompleteRunnable`; otherwise `NotRunnable` or `CompleteNotRunnable`, naming a non-empty
/// list of inputs, each of them declared and not found.
pub proof fn lemma_lifecycle_totality(files: Seq<Seq<char>>, observed: Seq<Option<Seq<char>>>, has_manifest: bool)
    requires
        observed.len() == files.len(),
    ensures
        (forall|i: int| 0 <= i < files.len() ==> (#[trigger] observed[i]) is Some) ==> lifecycle_of(
            missing_of(files, observed),
            has_manifest,
        ) == if has_manifest {
            Lifecycle::CompleteRunnable
        } else {
            Lifecycle::Runnable
        },
        (exists|i: int| 0 <= i < files.len() && (#[trigger] observed[i]) is None) ==> {
            let m = missing_of(files, observed);
            &&& m.len() > 0
            &&& lifecycle_of(m, has_manifest) == if has_manifest {
                Lifecycle::CompleteNotRunnable(m)
            } else {
                Lifecycle::NotRunnable(m)
            }
            &&& forall|k: int| 0 <= k < m.len() ==> declared_and_absent(files, observed, #[trigger] m[k])
        },
{
    lemma_missing_empty(files, observed);
    let m = missing_of(files, observed);
    assert forall|k: int| 0 <= k < m.len() implies declared_and_absent(files, observed, #[trigger] m[k]) by {
        lemma_missing_members(files, observed, k);
    }
    if exists|i: int| 0 <= i < files.len() && (#[trigger] observed[i]) is None {
        let j = choose|i: int| 0 <= i < files.len() && (#[trigger] observed[i]) is None;
        assert(!(observed[j] is Some));
        assert(m.len() != 0);
    }
}

} // verus!
