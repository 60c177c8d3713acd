//! Evaluators: which run when, and what those that run before a message say of it.
use vstd::prelude::*;
use crate::actions::{optional_text, Report};
use crate::actions::ActionOutcome;
use crate::json::{json_entries, Json};
use crate::json::JsonValue;
use crate::string_map::StringMap;

verus! {

broadcast use {vstd::seq_lib::group_seq_properties, crate::json::json_value_view};

/// When an evaluator runs.
#[derive(Clone, Copy, Debug, PartialEq, Eq, Structural)]
pub enum EvaluatorPhase {
    /// Before a message is stored.
    Pre,
    /// After a message was answered.
    Post,
}

/// What an evaluator says of itself.
pub struct EvaluatorDefinition {
    pub name: String,
    pub phase: EvaluatorPhase,
}

/// When a number of evaluators run.
pub open spec fn phases_of(defs: Seq<EvaluatorDefinition>) -> Seq<EvaluatorPhase> {
    defs.map_values(|d: EvaluatorDefinition| d.phase)
}

/// What the evaluators before a message say of it.
pub struct PreEvaluatorResult {
    /// The message is dropped.
    pub blocked: bool,
    /// Why it is dropped.
    pub reason: Option<String>,
    /// What it says instead.
    pub rewritten_text: Option<String>,
}

/// What the evaluators before a message say of it.
#[verifier::ext_equal]
pub struct PreResult {
    pub blocked: bool,
    pub reason: Option<Seq<char>>,
    pub rewritten_text: Option<Seq<char>>,
}

impl View for PreEvaluatorResult {
    type V = PreResult;

    open spec fn view(&self) -> PreResult {
        PreResult {
            blocked: self.blocked,
            reason: optional_text(self.reason),
            rewritten_text: optional_text(self.rewritten_text),
        }
    }
}

/// Nothing said.
pub open spec fn nothing_said() -> PreResult {
    PreResult { blocked: false, reason: None, rewritten_text: None }
}

impl Default for PreEvaluatorResult {
    fn default() -> (r: PreEvaluatorResult)
        ensures
            r@ == nothing_said(),
    {
        PreEvaluatorResult { blocked: false, reason: None, rewritten_text: None }
    }
}

/// The positions of the evaluators that run in `phase`.
pub open spec fn in_phase(phases: Seq<EvaluatorPhase>, phase: EvaluatorPhase) -> Seq<int>
    decreases phases.len(),
{
    if phases.len() == 0 {
        Seq::empty()
    } else {
        let before = in_phase(phases.drop_last(), phase);
        if phases.last() == phase {
            before.push(phases.len() - 1)
        } else {
            before
        }
    }
}

/// The positions that a sequence of numbers stands for.
pub open spec fn positions(v: Seq<usize>) -> Seq<int> {
    v.map_values(|i: usize| i as int)
}

/// The evaluators that run in `phase`.
pub fn select_evaluators(defs: &Vec<EvaluatorDefinition>, phase: EvaluatorPhase) -> (r: Vec<usize>)
    ensures
        positions(r@) == in_phase(phases_of(defs@), phase),
{
    let mut r: Vec<usize> = Vec::new();
    let ghost phases = phases_of(defs@);
    assert(positions(r@) =~= Seq::empty());
    for i in 0..defs.len()
        invariant
            phases == phases_of(defs@),
            positions(r@) == in_phase(phases.take(i as int), phase),
    {
        assert(phases.take(i + 1).drop_last() =~= phases.take(i as int));
        assert(phases.take(i + 1).last() == defs@[i as int].phase);
        if defs[i].phase == phase {
            let ghost before = r@;
            r.push(i);
            assert(positions(r@) =~= positions(before).push(i as int));
        }
    }
    assert(phases.take(defs@.len() as int) =~= phases);
    r
}

/// The first of two optional texts that is there.
pub open spec fn first_of(a: Option<Seq<char>>, b: Option<Seq<char>>) -> Option<Seq<char>> {
    if a is Some {
        a
    } else {
        b
    }
}

/// The text that a report puts in place of the message, if it does.
pub open spec fn rewrite_in(data: Option<Map<Seq<char>, Json>>) -> Option<Seq<char>> {
    match data {
        Some(m) => if m.contains_key("rewritten_text"@) {
            match m["rewritten_text"@] {
                Json::String(s) => Some(s),
                _ => None,
            }
        } else {
            None
        },
        None => None,
    }
}

/// What is said after one more report: a failure blocks the message, for its
/// error, else its text, else the reason from before; and a report may put
/// another text in place of the message.
pub open spec fn after_report(result: PreResult, report: Report) -> PreResult {
    PreResult {
        blocked: result.blocked || !report.success,
        reason: if report.success {
            result.reason
        } else {
            first_of(report.error, first_of(report.text, result.reason))
        },
        rewritten_text: first_of(rewrite_in(report.data), result.rewritten_text),
    }
}

/// What is said after one more evaluator. One that did not run, reported nothing
/// or failed says nothing.
pub open spec fn after_outcome(result: PreResult, outcome: ActionOutcome) -> PreResult {
    match outcome {
        ActionOutcome::Done(Some(r)) => after_report(result, r@),
        _ => result,
    }
}

/// What a number of evaluators say, one after another.
pub open spec fn said(outcomes: Seq<ActionOutcome>) -> PreResult
    decreases outcomes.len(),
{
    if outcomes.len() == 0 {
        nothing_said()
    } else {
        after_outcome(said(outcomes.drop_last()), outcomes.last())
    }
}

/// The text that a report puts in place of the message, if it does.
fn read_rewrite(data: &Option<StringMap<JsonValue>>) -> (r: Option<String>)
    ensures
        optional_text(r) == rewrite_in(
            match *data {
                Some(m) => Some(json_entries(m@)),
                None => None,
            },
        ),
{
    match data {
        Some(m) => match m.get("rewritten_text") {
            Some(JsonValue::String(s)) => Some(s.clone()),
            _ => None,
        },
        None => None,
    }
}

/// Takes in what one more evaluator says.
pub fn absorb_outcome(result: PreEvaluatorResult, outcome: &ActionOutcome) -> (r: PreEvaluatorResult)
    ensures
        r@ == after_outcome(result@, *outcome),
{
    match outcome {
        ActionOutcome::Done(Some(report)) => {
            let mut r = result;
            if !report.success {
                r.blocked = true;
                match &report.error {
                    Some(e) => {
                        r.reason = Some(e.clone());
                    },
                    None => match &report.text {
                        Some(t) => {
                            r.reason = Some(t.clone());
                        },
                        None => {},
                    },
                }
            }
            match read_rewrite(&report.data) {
                Some(t) => {
                    r.rewritten_text = Some(t);
                },
                None => {},
            }
            r
        },
        _ => result,
    }
}

/// What a number of evaluators say, one after another.
pub fn evaluate_outcomes(outcomes: &Vec<ActionOutcome>) -> (r: PreEvaluatorResult)
    ensures
        r@ == said(outcomes@),
{
    let mut r = PreEvaluatorResult { blocked: false, reason: None, rewritten_text: None };
    for i in 0..outcomes.len()
        invariant
            r@ == said(outcomes@.take(i as int)),
    {
        assert(outcomes@.take(i + 1).drop_last() =~= outcomes@.take(i as int));
        r = absorb_outcome(r, &outcomes[i]);
    }
    assert(outcomes@.take(outcomes@.len() as int) =~= outcomes@);
    r
}

// ---------------------------------------------------------------------------
// Laws
// ---------------------------------------------------------------------------
/// An evaluator that blocks the message.
pub open spec fn blocks(outcome: ActionOutcome) -> bool {
    outcome matches ActionOutcome::Done(Some(r)) && !r.success
}

/// A message is blocked exactly where one of the evaluators blocks it.
pub proof fn blocked_by_any(outcomes: Seq<ActionOutcome>)
    ensures
        said(outcomes).blocked <==> exists|i: int| 0 <= i < outcomes.len() && blocks(#[trigger] outcomes[i]),
    decreases outcomes.len(),
{
    if outcomes.len() > 0 {
        let rest = outcomes.drop_last();
        blocked_by_any(rest);
        if blocks(outcomes.last()) {
            assert(blocks(outcomes[outcomes.len() - 1]));
        }
        if said(rest).blocked {
            let i = choose|i: int| 0 <= i < rest.len() && blocks(#[trigger] rest[i]);
            assert(blocks(outcomes[i]));
        }
        if exists|i: int| 0 <= i < outcomes.len() && blocks(#[trigger] outcomes[i]) {
            let i = choose|i: int| 0 <= i < outcomes.len() && blocks(#[trigger] outcomes[i]);
            if i < rest.len() {
                assert(blocks(rest[i]));
            }
        }
    }
}

/// A message that is not blocked has no reason to be.
pub proof fn no_reason_without_block(outcomes: Seq<ActionOutcome>)
    requires
        !said(outcomes).blocked,
    ensures
        said(outcomes).reason is None,
    decreases outcomes.len(),
{
    if outcomes.len() > 0 {
        no_reason_without_block(outcomes.drop_last());
    }
}

/// The evaluators before and after a message are different ones, and all of them.
pub proof fn phases_part_evaluators(phases: Seq<EvaluatorPhase>)
    ensures
        in_phase(phases, EvaluatorPhase::Pre).len() + in_phase(phases, EvaluatorPhase::Post).len()
            == phases.len(),
    decreases phases.len(),
{
    if phases.len() > 0 {
        phases_part_evaluators(phases.drop_last());
    }
}

/// An evaluator runs in its phase and in no other, and those of a phase run in the order
/// in which they are registered, each once.
pub proof fn evaluators_run_in_their_phase(phases: Seq<EvaluatorPhase>, phase: EvaluatorPhase, i: int)
    ensures
        in_phase(phases, phase).contains(i) <==> 0 <= i < phases.len() && phases[i] == phase,
        forall|a: int, b: int|
            0 <= a < b < in_phase(phases, phase).len() ==> #[trigger] in_phase(phases, phase)[a]
                < #[trigger] in_phase(phases, phase)[b],
        forall|a: int|
            0 <= a < in_phase(phases, phase).len() ==> 0 <= #[trigger] in_phase(phases, phase)[a]
                < phases.len(),
    decreases phases.len(),
{
    if phases.len() > 0 {
        let rest = phases.drop_last();
        let before = in_phase(rest, phase);
        let all = in_phase(phases, phase);
        evaluators_run_in_their_phase(rest, phase, i);
        if all.contains(i) {
            let k = choose|k: int| 0 <= k < all.len() && all[k] == i;
            if k < before.len() {
                assert(before[k] == i);
                assert(before.contains(i));
            }
        }
        if before.contains(i) {
            let k = choose|k: int| 0 <= k < before.len() && before[k] == i;
            assert(all[k] == i);
        }
        if i == phases.len() - 1 && phases[i] == phase {
            assert(all.last() == i);
        }
        assert forall|a: int, b: int| 0 <= a < b < all.len() implies #[trigger] all[a]
            < #[trigger] all[b] by {
            assert(all[a] == before[a]);
            if b < before.len() {
                assert(all[b] == before[b]);
            }
        }
        assert forall|a: int| 0 <= a < all.len() implies 0 <= #[trigger] all[a] < phases.len() by {
            if a < before.len() {
                assert(all[a] == before[a]);
            }
        }
    }
}

/// A report of success changes nothing of a block; one of failure blocks, and its error
/// is the reason, else its text, else the reason stays.
pub proof fn failure_gives_the_reason(result: PreResult, report: Report, error: Seq<char>, text: Seq<char>)
    ensures
        report.success ==> after_report(result, report).blocked == result.blocked && after_report(
            result,
            report,
        ).reason == result.reason,
        !report.success ==> after_report(result, report).blocked,
        !report.success && report.error == Some(error) ==> after_report(result, report).reason == Some(error),
        !report.success && report.error is None && report.text == Some(text) ==> after_report(
            result,
            report,
        ).reason == Some(text),
        !report.success && report.error is None && report.text is None ==> after_report(result, report).reason
            == result.reason,
{
}

/// A text that a report puts in place of the message stands from then on, until another
/// report puts one there, whether or not the reports are of success.
pub proof fn last_rewrite_stands(result: PreResult, report: Report, data: Map<Seq<char>, Json>, text: Seq<char>)
    ensures
        report.data == Some(data.insert("rewritten_text"@, Json::String(text))) ==> after_report(
            result,
            report,
        ).rewritten_text == Some(text),
        report.data == Some(data.remove("rewritten_text"@)) ==> after_report(result, report).rewritten_text
            == result.rewritten_text,
        report.data is None ==> after_report(result, report).rewritten_text == result.rewritten_text,
        report.data matches Some(m) && m.contains_key("rewritten_text"@) && !(m["rewritten_text"@] is String)
            ==> after_report(result, report).rewritten_text == result.rewritten_text,
{
}

/// The evaluators speak one after another: what one more says comes on top of what was
/// said before. One that did not run, had nothing to report, failed or was not found
/// says nothing.
pub proof fn one_more_speaks(outcomes: Seq<ActionOutcome>, outcome: ActionOutcome)
    ensures
        said(Seq::empty()) == (PreResult { blocked: false, reason: None, rewritten_text: None }),
        outcome matches ActionOutcome::Done(Some(r)) ==> said(outcomes.push(outcome)) == after_report(
            said(outcomes),
            r@,
        ),
        !(outcome matches ActionOutcome::Done(Some(_))) ==> said(outcomes.push(outcome)) == said(outcomes),
{
    assert(outcomes.push(outcome).drop_last() =~= outcomes);
}

}
