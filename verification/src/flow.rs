//! The bootstrap flow interpreter: a step machine over a declarative flow
//! whose only allowed steps are `installer_call` and `prompt`, recording an
//! ordered status history and producing the installer's final output.

use vstd::prelude::*;
use crate::errors::BootstrapError;
use crate::json::{
    json_of, json_view, json_view_list, lemma_json_view_list, obj_insert, spec_json_get,
    spec_obj_insert, JsonSpec, JsonValue,
};
use crate::output::{
    output_from_json, output_view, spec_opt_text_field, spec_output_of_json, BootstrapOutput,
    opt_text_view, texts_view,
};
use crate::strutil::str_eq;
use vstd::string::StringExecFns;

verus! {

/// One flow-declared question.
#[derive(Debug, Clone)]
pub struct Question {
    pub id: String,
    pub prompt: String,
    pub default: Option<String>,
}

/// The mathematical image of a question.
#[verifier::ext_equal]
pub struct QuestionSpec {
    pub id: Seq<char>,
    pub prompt: Seq<char>,
    pub default: Option<Seq<char>>,
}

pub open spec fn question_view(q: Question) -> QuestionSpec {
    QuestionSpec { id: q.id@, prompt: q.prompt@, default: opt_text_view(q.default) }
}

pub open spec fn questions_view(qs: Seq<Question>) -> Seq<QuestionSpec> {
    qs.map_values(|q: Question| question_view(q))
}

/// One step of a bootstrap flow.
#[derive(Debug, Clone)]
pub struct BootstrapStep {
    pub kind: String,
    pub result: Option<JsonValue>,
    pub questions: Option<Vec<Question>>,
}

/// The mathematical image of a step.
#[verifier::ext_equal]
pub struct StepSpec {
    pub kind: Seq<char>,
    pub result: Option<JsonSpec>,
    pub questions: Option<Seq<QuestionSpec>>,
}

pub open spec fn step_view(s: BootstrapStep) -> StepSpec {
    StepSpec {
        kind: s.kind@,
        result: match s.result {
            Option::Some(v) => Option::Some(json_view(v)),
            Option::None => Option::None,
        },
        questions: match s.questions {
            Option::Some(qs) => Option::Some(questions_view(qs@)),
            Option::None => Option::None,
        },
    }
}

pub open spec fn steps_view(ss: Seq<BootstrapStep>) -> Seq<StepSpec> {
    ss.map_values(|s: BootstrapStep| step_view(s))
}

/// A decoded bootstrap flow: its ordered steps.
#[derive(Debug, Clone)]
pub struct BootstrapFlow {
    pub steps: Vec<BootstrapStep>,
}

/// The transport a flow asks its questions through.  Each adapter is free
/// to fail or answer as its medium allows; nothing is assumed of the
/// answers here.
pub trait PromptAdapter {
    fn ask(&mut self, questions: &Vec<Question>) -> (r: Result<JsonValue, BootstrapError>)
        ensures
            r matches Result::Err(e) ==> !(e is UnsupportedStep) && !(e is NoOutput) && !(
            e is InvalidOutput),
    ;
}

/// An adapter for contexts where prompts are disallowed: it fails the first
/// time it is asked anything.
pub struct DenyPromptAdapter;

impl PromptAdapter for DenyPromptAdapter {
    /// Refuses every question list.
    fn ask(&mut self, questions: &Vec<Question>) -> (r: Result<JsonValue, BootstrapError>)
        ensures
            r matches Result::Err(e) && e is Config,
    {
        Result::Err(
            BootstrapError::Config(
                String::from_str("interactive prompts are disabled by policy"),
            ),
        )
    }
}

/// The answers every adapter hands back for a question list: one binding
/// per question, the supplied answer when one exists under the question's
/// id, the default otherwise; a question with neither fails with the first
/// such id.
pub open spec fn spec_collect_answers(questions: Seq<QuestionSpec>, answers: JsonSpec) -> Result<
    Seq<(Seq<char>, JsonSpec)>,
    Seq<char>,
> {
    spec_collect_answers_from(Seq::<(Seq<char>, JsonSpec)>::empty(), questions, answers)
}

pub open spec fn spec_collect_answers_from(
    acc: Seq<(Seq<char>, JsonSpec)>,
    questions: Seq<QuestionSpec>,
    answers: JsonSpec,
) -> Result<Seq<(Seq<char>, JsonSpec)>, Seq<char>>
    decreases questions.len(),
{
    if questions.len() == 0 {
        Result::Ok(acc)
    } else {
        let q = questions[0];
        match spec_json_get(answers, q.id) {
            Option::Some(v) => spec_collect_answers_from(
                spec_obj_insert(acc, q.id, v),
                questions.drop_first(),
                answers,
            ),
            Option::None => match q.default {
                Option::Some(d) => spec_collect_answers_from(
                    spec_obj_insert(acc, q.id, JsonSpec::Str(d)),
                    questions.drop_first(),
                    answers,
                ),
                Option::None => Result::Err(q.id),
            },
        }
    }
}

/// Builds the answer object for a question list from an answers document:
/// the shared completion step of every interaction adapter.
#[verifier::loop_isolation(false)]
pub fn collect_answers(questions: &Vec<Question>, answers: &JsonValue) -> (r: Result<
    JsonValue,
    BootstrapError,
>)
    ensures
        match r {
            Result::Ok(provided) => (provided is Obj) && spec_collect_answers(
                questions_view(questions@),
                json_view(*answers),
            ) == Result::<Seq<(Seq<char>, JsonSpec)>, Seq<char>>::Ok(
                json_view(provided)->Obj_0,
            ),
            Result::Err(e) => (e matches BootstrapError::MissingAnswer(id)
                && spec_collect_answers(questions_view(questions@), json_view(*answers))
                == Result::<Seq<(Seq<char>, JsonSpec)>, Seq<char>>::Err(id@)),
        },
{
    let mut provided: Vec<(String, JsonValue)> = Vec::new();
    let n = questions.len();
    let mut i: usize = 0;
    let ghost gquestions = questions_view(questions@);
    proof {
        assert(crate::json::json_view_fields(provided@) =~= Seq::<(Seq<char>, JsonSpec)>::empty());
        assert(gquestions.subrange(0, n as int) =~= gquestions);
    }
    while i < n
        invariant
            i <= n,
            spec_collect_answers(gquestions, json_view(*answers)) == spec_collect_answers_from(
                crate::json::json_view_fields(provided@),
                gquestions.subrange(i as int, n as int),
                json_view(*answers),
            ),
        decreases n - i,
    {
        let ghost rest = gquestions.subrange(i as int, n as int);
        assert(rest[0] == gquestions[i as int]);
        assert(rest.drop_first() =~= gquestions.subrange(i + 1, n as int));
        assert(gquestions[i as int] == question_view(questions@[i as int]));
        let q = &questions[i];
        let value: JsonValue = match answers.get(q.id.as_str()) {
            Option::Some(found) => found.clone(),
            Option::None => match &q.default {
                Option::Some(d) => JsonValue::Str(d.clone()),
                Option::None => {
                    return Result::Err(BootstrapError::MissingAnswer(q.id.clone()));
                },
            },
        };
        obj_insert(&mut provided, q.id.as_str(), value);
        i = i + 1;
    }
    assert(gquestions.subrange(n as int, n as int) =~= Seq::<QuestionSpec>::empty());
    Result::Ok(JsonValue::Obj(provided))
}

/// An adapter whose answers are a fixed JSON object supplied up front.
pub struct JsonPromptAdapter {
    answers: JsonValue,
}

impl JsonPromptAdapter {
    /// The answers this adapter was built over.
    pub closed spec fn view_answers(&self) -> JsonSpec {
        json_view(self.answers)
    }

    /// Accepts a JSON object of answers; anything else is refused.
    pub fn new(answers: JsonValue) -> (r: Result<Self, BootstrapError>)
        ensures
            match r {
                Result::Ok(adapter) => (json_view(answers) is Obj) && adapter.view_answers()
                    == json_view(answers),
                Result::Err(e) => !(json_view(answers) is Obj) && e is Config,
            },
    {
        match &answers {
            JsonValue::Obj(_) => Result::Ok(JsonPromptAdapter { answers }),
            _ => Result::Err(
                BootstrapError::Config(String::from_str("answers JSON must be an object")),
            ),
        }
    }
}

impl PromptAdapter for JsonPromptAdapter {
    /// Answers from the supplied object, with defaults for unanswered
    /// questions; fails on the first question with neither.
    fn ask(&mut self, questions: &Vec<Question>) -> (r: Result<JsonValue, BootstrapError>)
        ensures
            match r {
                Result::Ok(provided) => spec_collect_answers(
                    questions_view(questions@),
                    old(self).view_answers(),
                ) == Result::<Seq<(Seq<char>, JsonSpec)>, Seq<char>>::Ok(
                    json_view(provided)->Obj_0,
                ),
                Result::Err(e) => e matches BootstrapError::MissingAnswer(id)
                    && spec_collect_answers(
                    questions_view(questions@),
                    old(self).view_answers(),
                ) == Result::<Seq<(Seq<char>, JsonSpec)>, Seq<char>>::Err(id@),
            },
    {
        collect_answers(questions, &self.answers)
    }
}

/// The step kinds bootstrap mode allows.
pub open spec fn spec_step_allowed(kind: Seq<char>) -> bool {
    kind == "installer_call"@ || kind == "prompt"@
}

/// Whether any step falls outside the allow-list.
pub open spec fn spec_has_unsupported(steps: Seq<StepSpec>) -> bool {
    exists|i: int| 0 <= i < steps.len() && !spec_step_allowed(#[trigger] steps[i].kind)
}

/// The payload of the last `installer_call`, if any: the candidate final
/// output, each occurrence replacing the previous one.
pub open spec fn spec_candidate(steps: Seq<StepSpec>) -> Option<Option<JsonSpec>>
    decreases steps.len(),
{
    if steps.len() == 0 {
        Option::None
    } else if steps[steps.len() - 1].kind == "installer_call"@ {
        Option::Some(steps[steps.len() - 1].result)
    } else {
        spec_candidate(steps.drop_last())
    }
}

/// The statuses a fully executed step list contributes, in order.
pub open spec fn spec_statuses(steps: Seq<StepSpec>) -> Seq<Seq<char>>
    decreases steps.len(),
{
    if steps.len() == 0 {
        Seq::<Seq<char>>::empty()
    } else {
        spec_statuses(steps.drop_last()) + (if steps[steps.len() - 1].kind == "installer_call"@ {
            seq!["deploying"@]
        } else if steps[steps.len() - 1].kind == "prompt"@ {
            seq!["validating"@, "applying_config"@]
        } else {
            Seq::<Seq<char>>::empty()
        })
    }
}

/// The full status history of a successful run.
pub open spec fn spec_full_history(steps: Seq<StepSpec>, ready: bool) -> Seq<Seq<char>> {
    seq!["waiting_for_answers"@] + spec_statuses(steps) + seq![
        if ready {
            "completed"@
        } else {
            "failed"@
        },
    ]
}

/// What a successful run must have produced from these steps: no step
/// outside the allow-list, an `installer_call` present whose last payload
/// decodes to the output, and the exact status history.
pub open spec fn spec_run_ok(
    steps: Seq<StepSpec>,
    out: crate::output::BootstrapOutputSpec,
    history: Seq<Seq<char>>,
) -> bool {
    &&& !spec_has_unsupported(steps)
    &&& match spec_candidate(steps) {
        Option::Some(Option::Some(payload)) => spec_output_of_json(payload) == Option::Some(out),
        _ => false,
    }
    &&& history == spec_full_history(steps, out.ready)
}

/// The interpreter's own fault in one step, ignoring prompt outcomes: a
/// kind outside the allow-list, an `installer_call` without a result
/// payload, or one whose payload does not decode.
pub enum StepFault {
    Unsupported(Seq<char>),
    MissingResult,
    UndecodableResult,
}

pub open spec fn spec_step_fault(s: StepSpec) -> Option<StepFault> {
    if !spec_step_allowed(s.kind) {
        Option::Some(StepFault::Unsupported(s.kind))
    } else if s.kind == "installer_call"@ {
        match s.result {
            Option::None => Option::Some(StepFault::MissingResult),
            Option::Some(payload) => if spec_output_of_json(payload) is None {
                Option::Some(StepFault::UndecodableResult)
            } else {
                Option::None
            },
        }
    } else {
        Option::None
    }
}

/// The first faulting step's fault, in execution order.
pub open spec fn spec_first_fault(steps: Seq<StepSpec>) -> Option<StepFault>
    decreases steps.len(),
{
    if steps.len() == 0 {
        Option::None
    } else {
        match spec_step_fault(steps[0]) {
            Option::Some(f) => Option::Some(f),
            Option::None => spec_first_fault(steps.drop_first()),
        }
    }
}

/// The error a fault surfaces as: the offending kind for a denied step,
/// an invalid-output failure for a missing or undecodable payload.
pub open spec fn spec_fault_error(f: StepFault, e: BootstrapError) -> bool {
    match f {
        StepFault::Unsupported(kind) => e matches BootstrapError::UnsupportedStep(k) && k@
            == kind,
        StepFault::MissingResult => e is InvalidOutput,
        StepFault::UndecodableResult => e is InvalidOutput,
    }
}

/// Whether execution reaches a prompt: some prompt step is preceded by no
/// faulting step, so an adapter is actually asked before the interpreter
/// could fail on its own.
pub open spec fn spec_prompt_reached(steps: Seq<StepSpec>) -> bool {
    exists|j: int|
        0 <= j < steps.len() && (#[trigger] steps[j]).kind == "prompt"@ && (forall|i: int|
            0 <= i < j ==> spec_step_fault(#[trigger] steps[i]) is None)
}

/// An error that only an interaction adapter may report: the interpreter
/// reserves the step-kind, missing-output and invalid-output failures for
/// itself.
pub open spec fn spec_adapter_error(e: BootstrapError) -> bool {
    !(e is UnsupportedStep) && !(e is NoOutput) && !(e is InvalidOutput)
}

/// Whether the last `installer_call` carries a decodable payload.
pub open spec fn spec_candidate_decodes(steps: Seq<StepSpec>) -> bool {
    match spec_candidate(steps) {
        Option::Some(Option::Some(payload)) => spec_output_of_json(payload) is Some,
        _ => false,
    }
}

/// The whole outcome of a run over decoded steps.
///
/// On success the output and history are pinned by [`spec_run_ok`].  A
/// failure is either an adapter's own error — possible only when execution
/// reaches a prompt — or the interpreter's, and then fully determined: the
/// first fault's error, or no-output when the steps are clean but no
/// `installer_call` occurs.  A faulting step list never succeeds, and one
/// that reaches no prompt succeeds exactly when it is clean and some
/// `installer_call` delivers a decodable payload.
pub open spec fn spec_run_post(
    steps: Seq<StepSpec>,
    r: Result<FlowExecutionResult, BootstrapError>,
) -> bool {
    &&& match r {
        Result::Ok(res) => spec_run_ok(
            steps,
            output_view(res.output),
            texts_view(res.status_history@),
        ),
        Result::Err(e) => if spec_adapter_error(e) {
            spec_prompt_reached(steps)
        } else {
            match spec_first_fault(steps) {
                Option::Some(f) => spec_fault_error(f, e),
                Option::None => e is NoOutput && spec_candidate(steps) is None,
            }
        },
    }
    &&& (spec_first_fault(steps) is Some ==> r is Err)
    &&& (!spec_prompt_reached(steps) ==> (r is Ok <==> (spec_first_fault(steps) is None
        && spec_candidate_decodes(steps))))
}

/// A step outside the allow-list is the first fault, unless an earlier
/// installer payload fault precedes it; either way the scan faults.
proof fn lemma_unsupported_implies_fault(steps: Seq<StepSpec>)
    requires
        spec_has_unsupported(steps),
    ensures
        spec_first_fault(steps) is Some,
    decreases steps.len(),
{
    if steps.len() > 0 {
        if spec_step_fault(steps[0]) is None {
            assert(spec_step_allowed(steps[0].kind));
            let k = choose|i: int|
                0 <= i < steps.len() && !spec_step_allowed(#[trigger] steps[i].kind);
            assert(steps.drop_first()[k - 1] == steps[k]);
            lemma_unsupported_implies_fault(steps.drop_first());
        }
    }
}

/// The outcome of a flow run: the installer's output and the ordered
/// status history, kept whole for audit logs.
#[derive(Debug, Clone)]
pub struct FlowExecutionResult {
    pub output: BootstrapOutput,
    pub status_history: Vec<String>,
}

/// Executes the steps of a bootstrap flow against an interaction adapter.
///
/// Only `installer_call` (which must carry a result payload, the last one
/// winning) and `prompt` (whose answers are collected but not yet fed back
/// into later steps) are allowed; any other kind fails before any output is
/// produced.
#[verifier::loop_isolation(false)]
pub fn run_flow_steps<A: PromptAdapter>(flow: &BootstrapFlow, prompt_adapter: &mut A) -> (r:
    Result<FlowExecutionResult, BootstrapError>)
    ensures
        spec_run_post(steps_view(flow.steps@), r),
        spec_has_unsupported(steps_view(flow.steps@)) ==> r is Err,
{
    proof {
        reveal_strlit("installer_call");
        reveal_strlit("prompt");
        reveal_strlit("waiting_for_answers");
        reveal_strlit("deploying");
        reveal_strlit("validating");
        reveal_strlit("applying_config");
        reveal_strlit("completed");
        reveal_strlit("failed");
    }
    let ghost gsteps = steps_view(flow.steps@);
    let mut statuses: Vec<String> = Vec::new();
    statuses.push(String::from_str("waiting_for_answers"));
    assert(texts_view(statuses@) =~= seq!["waiting_for_answers"@]);
    let mut output: Option<BootstrapOutput> = Option::None;
    let empty_questions: Vec<Question> = Vec::new();
    let n = flow.steps.len();
    let mut i: usize = 0;
    proof {
        assert(gsteps.subrange(0, n as int) =~= gsteps);
        if spec_has_unsupported(gsteps) {
            lemma_unsupported_implies_fault(gsteps);
        }
    }
    while i < n
        invariant
            i <= n,
            n == flow.steps@.len(),
            !spec_has_unsupported(gsteps.subrange(0, i as int)),
            spec_first_fault(gsteps) == spec_first_fault(gsteps.subrange(i as int, n as int)),
            forall|j: int| 0 <= j < i ==> spec_step_fault(#[trigger] gsteps[j]) is None,
            texts_view(statuses@) == seq!["waiting_for_answers"@] + spec_statuses(
                gsteps.subrange(0, i as int),
            ),
            match spec_candidate(gsteps.subrange(0, i as int)) {
                Option::None => output is None,
                Option::Some(payload_opt) => output matches Option::Some(o) && (
                payload_opt matches Option::Some(payload) && spec_output_of_json(payload)
                    == Option::Some(output_view(o))),
            },
        decreases n - i,
    {
        let ghost prefix = gsteps.subrange(0, i as int);
        let ghost cur = gsteps[i as int];
        assert(cur == step_view(flow.steps@[i as int]));
        assert(gsteps.subrange(0, i + 1) =~= prefix.push(cur));
        assert(gsteps.subrange(0, i + 1).drop_last() =~= prefix);
        let ghost suffix = gsteps.subrange(i as int, n as int);
        assert(suffix[0] == cur);
        assert(suffix.drop_first() =~= gsteps.subrange(i + 1, n as int));
        let step = &flow.steps[i];
        if str_eq(step.kind.as_str(), "installer_call") {
            let ghost before = statuses@;
            statuses.push(String::from_str("deploying"));
            assert(texts_view(statuses@) =~= texts_view(before).push("deploying"@));
            let raw = match &step.result {
                Option::Some(raw) => raw,
                Option::None => {
                    proof {
                        assert(spec_step_fault(cur) == Option::Some(StepFault::MissingResult));
                        assert(spec_first_fault(gsteps) == Option::Some(
                            StepFault::MissingResult,
                        ));
                    }
                    return Result::Err(
                        BootstrapError::InvalidOutput(
                            String::from_str("installer_call missing result"),
                        ),
                    );
                },
            };
            let parsed = match output_from_json(raw) {
                Option::Some(parsed) => parsed,
                Option::None => {
                    proof {
                        assert(cur.result == Option::Some(json_view(*raw)));
                        assert(spec_step_fault(cur) == Option::Some(
                            StepFault::UndecodableResult,
                        ));
                        assert(spec_first_fault(gsteps) == Option::Some(
                            StepFault::UndecodableResult,
                        ));
                    }
                    return Result::Err(
                        BootstrapError::InvalidOutput(
                            String::from_str("installer_call result does not decode"),
                        ),
                    );
                },
            };
            proof {
                assert(spec_candidate(gsteps.subrange(0, i + 1)) == Option::Some(cur.result));
                assert(cur.result == Option::Some(json_view(*raw)));
                assert(spec_step_fault(cur) is None);
            }
            output = Option::Some(parsed);
            assert(texts_view(statuses@) =~= seq!["waiting_for_answers"@] + spec_statuses(
                gsteps.subrange(0, i + 1),
            ));
        } else if str_eq(step.kind.as_str(), "prompt") {
            let ghost before = statuses@;
            statuses.push(String::from_str("validating"));
            assert(texts_view(statuses@) =~= texts_view(before).push("validating"@));
            let asked = match &step.questions {
                Option::Some(qs) => prompt_adapter.ask(qs),
                Option::None => prompt_adapter.ask(&empty_questions),
            };
            match asked {
                Result::Ok(_) => {},
                Result::Err(e) => {
                    proof {
                        assert(gsteps[i as int].kind == "prompt"@);
                        assert(spec_prompt_reached(gsteps));
                        assert(spec_adapter_error(e));
                    }
                    return Result::Err(e);
                },
            }
            let ghost before2 = statuses@;
            statuses.push(String::from_str("applying_config"));
            assert(texts_view(statuses@) =~= texts_view(before2).push("applying_config"@));
            proof {
                assert(spec_candidate(gsteps.subrange(0, i + 1)) == spec_candidate(prefix));
                assert(texts_view(statuses@) =~= seq!["waiting_for_answers"@] + spec_statuses(
                    gsteps.subrange(0, i + 1),
                ));
                assert(spec_step_fault(cur) is None);
            }
        } else {
            proof {
                assert(!spec_step_allowed(gsteps[i as int].kind));
                assert(spec_has_unsupported(gsteps));
                assert(spec_step_fault(cur) == Option::Some(StepFault::Unsupported(cur.kind)));
                assert(spec_first_fault(gsteps) == Option::Some(
                    StepFault::Unsupported(cur.kind),
                ));
            }
            return Result::Err(BootstrapError::UnsupportedStep(step.kind.clone()));
        }
        i = i + 1;
    }
    assert(gsteps.subrange(0, n as int) =~= gsteps);
    proof {
        assert(gsteps.subrange(n as int, n as int) =~= Seq::<StepSpec>::empty());
        assert(spec_first_fault(gsteps) is None);
    }
    let final_output = match output {
        Option::Some(o) => o,
        Option::None => {
            return Result::Err(BootstrapError::NoOutput);
        },
    };
    let ghost before = statuses@;
    if final_output.ready {
        statuses.push(String::from_str("completed"));
        assert(texts_view(statuses@) =~= texts_view(before).push("completed"@));
    } else {
        statuses.push(String::from_str("failed"));
        assert(texts_view(statuses@) =~= texts_view(before).push("failed"@));
    }
    assert(texts_view(statuses@) =~= spec_full_history(gsteps, output_view(final_output).ready));
    Result::Ok(FlowExecutionResult { output: final_output, status_history: statuses })
}

/// What the flow bytes decode to: a `steps` array of steps, each with a
/// required `kind`, an optional `result` payload and optional `questions`.
pub open spec fn spec_question_of_json(v: JsonSpec) -> Option<QuestionSpec> {
    if !(v is Obj) {
        Option::None
    } else {
        match (spec_json_get(v, "id"@), spec_json_get(v, "prompt"@), spec_opt_text_field(
            v,
            "default"@,
        )) {
            (
                Option::Some(JsonSpec::Str(id)),
                Option::Some(JsonSpec::Str(prompt)),
                Option::Some(default),
            ) => Option::Some(QuestionSpec { id, prompt, default }),
            _ => Option::None,
        }
    }
}

pub open spec fn spec_questions_of_json(items: Seq<JsonSpec>) -> Option<Seq<QuestionSpec>>
    decreases items,
{
    if items.len() == 0 {
        Option::Some(Seq::<QuestionSpec>::empty())
    } else {
        match (spec_question_of_json(items[0]), spec_questions_of_json(items.drop_first())) {
            (Option::Some(q), Option::Some(rest)) => Option::Some(seq![q] + rest),
            _ => Option::None,
        }
    }
}

pub open spec fn spec_step_of_json(v: JsonSpec) -> Option<StepSpec> {
    if !(v is Obj) {
        Option::None
    } else {
        match spec_json_get(v, "kind"@) {
            Option::Some(JsonSpec::Str(kind)) => {
                let result = match spec_json_get(v, "result"@) {
                    Option::None => Option::Some(Option::<JsonSpec>::None),
                    Option::Some(JsonSpec::Null) => Option::Some(Option::<JsonSpec>::None),
                    Option::Some(p) => Option::Some(Option::Some(p)),
                };
                let questions = match spec_json_get(v, "questions"@) {
                    Option::None => Option::Some(Option::<Seq<QuestionSpec>>::None),
                    Option::Some(JsonSpec::Null) => Option::Some(Option::<Seq<QuestionSpec>>::None),
                    Option::Some(JsonSpec::Arr(items)) => match spec_questions_of_json(items) {
                        Option::Some(qs) => Option::Some(Option::Some(qs)),
                        Option::None => Option::None,
                    },
                    Option::Some(_) => Option::None,
                };
                match (result, questions) {
                    (Option::Some(result), Option::Some(questions)) => Option::Some(
                        StepSpec { kind, result, questions },
                    ),
                    _ => Option::None,
                }
            },
            _ => Option::None,
        }
    }
}

pub open spec fn spec_steps_of_json(items: Seq<JsonSpec>) -> Option<Seq<StepSpec>>
    decreases items,
{
    if items.len() == 0 {
        Option::Some(Seq::<StepSpec>::empty())
    } else {
        match (spec_step_of_json(items[0]), spec_steps_of_json(items.drop_first())) {
            (Option::Some(s), Option::Some(rest)) => Option::Some(seq![s] + rest),
            _ => Option::None,
        }
    }
}

pub open spec fn spec_flow_of_json(v: JsonSpec) -> Option<Seq<StepSpec>> {
    match spec_json_get(v, "steps"@) {
        Option::Some(JsonSpec::Arr(items)) => spec_steps_of_json(items),
        _ => Option::None,
    }
}

fn question_from_json(v: &JsonValue) -> (r: Option<Question>)
    ensures
        match r {
            Option::Some(q) => spec_question_of_json(json_view(*v)) == Option::Some(
                question_view(q),
            ),
            Option::None => spec_question_of_json(json_view(*v)) is None,
        },
{
    match v {
        JsonValue::Obj(_) => {},
        _ => {
            return Option::None;
        },
    }
    let id: String = match v.get("id") {
        Option::Some(found) => match found {
            JsonValue::Str(text) => text.clone(),
            _ => {
                return Option::None;
            },
        },
        Option::None => {
            return Option::None;
        },
    };
    let prompt: String = match v.get("prompt") {
        Option::Some(found) => match found {
            JsonValue::Str(text) => text.clone(),
            _ => {
                return Option::None;
            },
        },
        Option::None => {
            return Option::None;
        },
    };
    let default: Option<String> = match v.get("default") {
        Option::None => Option::None,
        Option::Some(found) => match found {
            JsonValue::Null => Option::None,
            JsonValue::Str(text) => Option::Some(text.clone()),
            _ => {
                return Option::None;
            },
        },
    };
    Option::Some(Question { id, prompt, default })
}

#[verifier::loop_isolation(false)]
fn questions_from_json(items: &Vec<JsonValue>) -> (r: Option<Vec<Question>>)
    ensures
        match r {
            Option::Some(qs) => spec_questions_of_json(json_view_list(items@)) == Option::Some(
                questions_view(qs@),
            ),
            Option::None => spec_questions_of_json(json_view_list(items@)) is None,
        },
{
    broadcast use lemma_json_view_list;

    let ghost gitems = json_view_list(items@);
    let mut out: Vec<Question> = Vec::new();
    let n = items.len();
    let mut i: usize = 0;
    assert(gitems.subrange(0, n as int) =~= gitems);
    while i < n
        invariant
            i <= n,
            questions_view(out@).len() == i,
            match spec_questions_of_json(gitems.subrange(i as int, n as int)) {
                Option::Some(rest) => spec_questions_of_json(gitems) == Option::Some(
                    questions_view(out@) + rest,
                ),
                Option::None => spec_questions_of_json(gitems) is None,
            },
        decreases n - i,
    {
        let ghost rest = gitems.subrange(i as int, n as int);
        assert(rest[0] == gitems[i as int]);
        assert(rest.drop_first() =~= gitems.subrange(i + 1, n as int));
        assert(gitems[i as int] == json_view(items@[i as int]));
        let q = match question_from_json(&items[i]) {
            Option::Some(q) => q,
            Option::None => {
                return Option::None;
            },
        };
        let ghost before = out@;
        out.push(q);
        proof {
            assert(questions_view(out@) =~= questions_view(before).push(question_view(q)));
            if spec_questions_of_json(gitems.subrange(i + 1, n as int)) is Some {
                let tail = spec_questions_of_json(gitems.subrange(i + 1, n as int))->Some_0;
                assert(spec_questions_of_json(rest) == Option::Some(
                    seq![question_view(q)] + tail,
                ));
                assert(questions_view(before) + (seq![question_view(q)] + tail) =~= questions_view(
                    out@,
                ) + tail);
            }
        }
        i = i + 1;
    }
    assert(gitems.subrange(n as int, n as int) =~= Seq::<JsonSpec>::empty());
    assert(questions_view(out@) + Seq::<QuestionSpec>::empty() =~= questions_view(out@));
    Option::Some(out)
}

fn step_from_json(v: &JsonValue) -> (r: Option<BootstrapStep>)
    ensures
        match r {
            Option::Some(s) => spec_step_of_json(json_view(*v)) == Option::Some(step_view(s)),
            Option::None => spec_step_of_json(json_view(*v)) is None,
        },
{
    match v {
        JsonValue::Obj(_) => {},
        _ => {
            return Option::None;
        },
    }
    let kind: String = match v.get("kind") {
        Option::Some(found) => match found {
            JsonValue::Str(text) => text.clone(),
            _ => {
                return Option::None;
            },
        },
        Option::None => {
            return Option::None;
        },
    };
    let result: Option<JsonValue> = match v.get("result") {
        Option::None => Option::None,
        Option::Some(found) => match found {
            JsonValue::Null => Option::None,
            _ => Option::Some(found.clone()),
        },
    };
    let questions: Option<Vec<Question>> = match v.get("questions") {
        Option::None => Option::None,
        Option::Some(found) => match found {
            JsonValue::Null => Option::None,
            JsonValue::Arr(items) => match questions_from_json(items) {
                Option::Some(qs) => Option::Some(qs),
                Option::None => {
                    return Option::None;
                },
            },
            _ => {
                return Option::None;
            },
        },
    };
    Option::Some(BootstrapStep { kind, result, questions })
}

/// Decodes a flow document into its steps.
#[verifier::loop_isolation(false)]
pub fn flow_from_json(v: &JsonValue) -> (r: Option<BootstrapFlow>)
    ensures
        match r {
            Option::Some(f) => spec_flow_of_json(json_view(*v)) == Option::Some(
                steps_view(f.steps@),
            ),
            Option::None => spec_flow_of_json(json_view(*v)) is None,
        },
{
    broadcast use lemma_json_view_list;

    let items = match v.get("steps") {
        Option::Some(found) => match found {
            JsonValue::Arr(items) => items,
            _ => {
                return Option::None;
            },
        },
        Option::None => {
            return Option::None;
        },
    };
    let ghost gitems = json_view_list(items@);
    let mut steps: Vec<BootstrapStep> = Vec::new();
    let n = items.len();
    let mut i: usize = 0;
    assert(gitems.subrange(0, n as int) =~= gitems);
    while i < n
        invariant
            i <= n,
            steps_view(steps@).len() == i,
            match spec_steps_of_json(gitems.subrange(i as int, n as int)) {
                Option::Some(rest) => spec_steps_of_json(gitems) == Option::Some(
                    steps_view(steps@) + rest,
                ),
                Option::None => spec_steps_of_json(gitems) is None,
            },
        decreases n - i,
    {
        let ghost rest = gitems.subrange(i as int, n as int);
        assert(rest[0] == gitems[i as int]);
        assert(rest.drop_first() =~= gitems.subrange(i + 1, n as int));
        assert(gitems[i as int] == json_view(items@[i as int]));
        let s = match step_from_json(&items[i]) {
            Option::Some(s) => s,
            Option::None => {
                return Option::None;
            },
        };
        let ghost before = steps@;
        steps.push(s);
        proof {
            assert(steps_view(steps@) =~= steps_view(before).push(step_view(s)));
            if spec_steps_of_json(gitems.subrange(i + 1, n as int)) is Some {
                let tail = spec_steps_of_json(gitems.subrange(i + 1, n as int))->Some_0;
                assert(spec_steps_of_json(rest) == Option::Some(seq![step_view(s)] + tail));
                assert(steps_view(before) + (seq![step_view(s)] + tail) =~= steps_view(steps@)
                    + tail);
            }
        }
        i = i + 1;
    }
    assert(gitems.subrange(n as int, n as int) =~= Seq::<JsonSpec>::empty());
    assert(steps_view(steps@) + Seq::<StepSpec>::empty() =~= steps_view(steps@));
    Option::Some(BootstrapFlow { steps })
}

/// Executes a bootstrap flow from its raw bytes.
///
/// The bytes must be a JSON flow document; everything after that decode is
/// [`run_flow_steps`]'s contract over the decoded steps.
pub fn run_bootstrap_flow<A: PromptAdapter>(bytes: &[u8], prompt_adapter: &mut A) -> (r: Result<
    FlowExecutionResult,
    BootstrapError,
>)
    ensures
        match json_of(bytes@) {
            Option::None => r matches Result::Err(e) && e is InvalidFlow,
            Option::Some(doc) => match spec_flow_of_json(doc) {
                Option::None => r matches Result::Err(e) && e is InvalidFlow,
                Option::Some(steps) => {
                    &&& spec_run_post(steps, r)
                    &&& (spec_has_unsupported(steps) ==> r is Err)
                },
            },
        },
{
    let doc = match crate::json::parse_json(bytes) {
        Option::Some(doc) => doc,
        Option::None => {
            return Result::Err(
                BootstrapError::InvalidFlow(String::from_str("flow bytes are not JSON")),
            );
        },
    };
    let flow = match flow_from_json(&doc) {
        Option::Some(flow) => flow,
        Option::None => {
            return Result::Err(
                BootstrapError::InvalidFlow(
                    String::from_str("flow document does not match the expected fields"),
                ),
            );
        },
    };
    run_flow_steps(&flow, prompt_adapter)
}


/// What one terminal line answers for one question: the trimmed input, the
/// default when the line is blank, and a hard failure when the question has
/// neither.  The terminal transport reads the lines; this decides them.
pub fn terminal_answer(question: &Question, line: &str) -> (r: Result<JsonValue, BootstrapError>)
    ensures
        match r {
            Result::Ok(answer) => {
                let trimmed = crate::strutil::spec_trim(line@);
                if trimmed.len() == 0 {
                    question.default matches Option::Some(d) && json_view(answer)
                        == JsonSpec::Str(d@)
                } else {
                    json_view(answer) == JsonSpec::Str(trimmed)
                }
            },
            Result::Err(e) => crate::strutil::spec_trim(line@).len() == 0 && question.default
                is None && (e matches BootstrapError::NoInput(id) && id@ == question.id@),
        },
{
    let answer = crate::strutil::trim_ascii(line);
    if answer.as_str().unicode_len() == 0 {
        match &question.default {
            Option::Some(d) => Result::Ok(JsonValue::Str(d.clone())),
            Option::None => Result::Err(BootstrapError::NoInput(question.id.clone())),
        }
    } else {
        Result::Ok(JsonValue::Str(answer))
    }
}


/// The answer a question settles to when the adapter completes it: the
/// supplied value under its id, else its default as a string.
pub open spec fn spec_expected_answer(q: QuestionSpec, answers: JsonSpec) -> JsonSpec {
    match spec_json_get(answers, q.id) {
        Option::Some(v) => v,
        Option::None => match q.default {
            Option::Some(d) => JsonSpec::Str(d),
            Option::None => JsonSpec::Null,
        },
    }
}

proof fn lemma_collect_from_covers(
    acc: Seq<(Seq<char>, JsonSpec)>,
    questions: Seq<QuestionSpec>,
    answers: JsonSpec,
)
    ensures
        match spec_collect_answers_from(acc, questions, answers) {
            Result::Ok(fields) => {
                &&& forall|key: Seq<char>|
                    (forall|i: int|
                        0 <= i < questions.len() ==> (#[trigger] questions[i]).id != key)
                        ==> #[trigger] crate::json::spec_fields_get(fields, key)
                        == crate::json::spec_fields_get(acc, key)
                &&& forall|i: int|
                    0 <= i < questions.len() && (forall|j: int|
                        i < j < questions.len() ==> (#[trigger] questions[j]).id
                            != questions[i].id) ==> crate::json::spec_fields_get(
                        fields,
                        (#[trigger] questions[i]).id,
                    ) == Option::Some(spec_expected_answer(questions[i], answers))
            },
            Result::Err(id) => exists|i: int|
                0 <= i < questions.len() && (#[trigger] questions[i]).id == id
                    && questions[i].default is None && spec_json_get(answers, questions[i].id)
                    is None,
        },
    decreases questions.len(),
{
    if questions.len() == 0 {
        return ;
    }
    let q0 = questions[0];
    let answered = spec_json_get(answers, q0.id);
    if answered is None && q0.default is None {
        return ;
    }
    let expected0 = spec_expected_answer(q0, answers);
    let acc1 = spec_obj_insert(acc, q0.id, expected0);
    let tail = questions.drop_first();
    lemma_collect_from_covers(acc1, tail, answers);
    assert(spec_collect_answers_from(acc, questions, answers) == spec_collect_answers_from(
        acc1,
        tail,
        answers,
    ));
    match spec_collect_answers_from(acc1, tail, answers) {
        Result::Ok(fields) => {
            assert forall|key: Seq<char>|
                (forall|i: int|
                    0 <= i < questions.len() ==> (#[trigger] questions[i]).id != key) implies
                #[trigger] crate::json::spec_fields_get(fields, key)
                    == crate::json::spec_fields_get(acc, key) by {
                assert(questions[0].id != key);
                assert(forall|i: int|
                    0 <= i < tail.len() ==> (#[trigger] tail[i]).id == questions[i + 1].id);
                crate::json::lemma_obj_insert_get(acc, q0.id, expected0, key);
            };
            assert forall|i: int|
                0 <= i < questions.len() && (forall|j: int|
                    i < j < questions.len() ==> (#[trigger] questions[j]).id != questions[i].id)
                implies crate::json::spec_fields_get(fields, (#[trigger] questions[i]).id)
                == Option::Some(spec_expected_answer(questions[i], answers)) by {
                if i == 0 {
                    assert(forall|j: int|
                        0 <= j < tail.len() ==> (#[trigger] tail[j]).id == questions[j + 1].id);
                    assert(forall|j: int| 0 <= j < tail.len() ==> tail[j].id != q0.id);
                    assert(crate::json::spec_fields_get(fields, q0.id)
                        == crate::json::spec_fields_get(acc1, q0.id));
                    crate::json::lemma_obj_insert_get(acc, q0.id, expected0, q0.id);
                } else {
                    assert(tail[i - 1] == questions[i]);
                    assert(forall|j: int|
                        i - 1 < j < tail.len() ==> (#[trigger] tail[j]).id == questions[j
                            + 1].id);
                    assert(forall|j: int|
                        i - 1 < j < tail.len() ==> (#[trigger] tail[j]).id != tail[i - 1].id);
                }
            };
        },
        Result::Err(id) => {
            let witness = choose|i: int|
                0 <= i < tail.len() && (#[trigger] tail[i]).id == id && tail[i].default is None
                    && spec_json_get(answers, tail[i].id) is None;
            assert(questions[witness + 1] == tail[witness]);
        },
    }
}

/// Every interaction adapter's completion step covers the question list:
/// each question is answered under its id — by the supplied answer, else
/// its default — a question earlier in the list yielding to a later one
/// with the same id, and the whole exchange fails precisely when some
/// question has neither an answer nor a default.
pub proof fn lemma_collect_answers_covers(questions: Seq<QuestionSpec>, answers: JsonSpec)
    ensures
        match spec_collect_answers(questions, answers) {
            Result::Ok(fields) => forall|i: int|
                0 <= i < questions.len() && (forall|j: int|
                    i < j < questions.len() ==> (#[trigger] questions[j]).id != questions[i].id)
                    ==> crate::json::spec_fields_get(fields, (#[trigger] questions[i]).id)
                    == Option::Some(spec_expected_answer(questions[i], answers)),
            Result::Err(id) => exists|i: int|
                0 <= i < questions.len() && (#[trigger] questions[i]).id == id
                    && questions[i].default is None && spec_json_get(answers, questions[i].id)
                    is None,
        },
{
    lemma_collect_from_covers(Seq::<(Seq<char>, JsonSpec)>::empty(), questions, answers);
}

} // verus!
