//! Which actions run, and what comes of them.
use vstd::prelude::*;
use vstd::utf8::is_ascii_chars;
use crate::json::{json_entries, Json};
use crate::json::JsonValue;
use crate::letters::{ascii_lower, lowercase, uppercase};
use crate::letters::{to_lowercase, to_uppercase};
use crate::rewrite::{glue, remove_char};
use crate::rewrite::{glued, glued_in_lots, nothing_to_take_out, slices, texts, without_char};
use crate::string_map::StringMap;
use crate::text::{same_text, trimmed};
use crate::text::trim;

verus! {

broadcast use vstd::seq_lib::group_seq_properties;

// ---------------------------------------------------------------------------
// Results
// ---------------------------------------------------------------------------
/// What an action or an evaluator reports.
pub struct ActionResult {
    pub success: bool,
    pub text: Option<String>,
    pub error: Option<String>,
    pub data: Option<StringMap<JsonValue>>,
}

/// What a report says.
#[verifier::ext_equal]
pub struct Report {
    pub success: bool,
    pub text: Option<Seq<char>>,
    pub error: Option<Seq<char>>,
    pub data: Option<Map<Seq<char>, Json>>,
}

/// What an optional string says.
pub open spec fn optional_text(s: Option<String>) -> Option<Seq<char>> {
    match s {
        Some(t) => Some(t@),
        None => None,
    }
}

impl View for ActionResult {
    type V = Report;

    open spec fn view(&self) -> Report {
        Report {
            success: self.success,
            text: optional_text(self.text),
            error: optional_text(self.error),
            data: match self.data {
                Some(m) => Some(json_entries(m@)),
                None => None,
            },
        }
    }
}

/// The report of a failure.
pub open spec fn failure_report(error: Seq<char>) -> Report {
    Report { success: false, text: None, error: Some(error), data: None }
}

impl ActionResult {
    /// The report of a failure.
    pub fn failure(error: &str) -> (r: ActionResult)
        ensures
            r@ == failure_report(error@),
    {
        ActionResult { success: false, text: None, error: Some(error.to_owned()), data: None }
    }
}

/// What came of one action or evaluator.
pub enum ActionOutcome {
    /// It did not want to run.
    NotValid,
    /// It ran, and may have reported something.
    Done(Option<ActionResult>),
    /// It failed with this error.
    Failed(String),
    /// There is none with this name.
    NotFound(String),
}

/// What is reported of one action or evaluator, if anything.
pub open spec fn report_of(outcome: ActionOutcome) -> Option<Report> {
    match outcome {
        ActionOutcome::NotValid => None,
        ActionOutcome::Done(Some(r)) => Some(r@),
        ActionOutcome::Done(None) => None,
        ActionOutcome::Failed(e) => Some(failure_report(e@)),
        ActionOutcome::NotFound(name) => Some(
            failure_report(glued(seq!["Action not found: "@, name@])),
        ),
    }
}

/// What is reported of a number of them, in their order.
pub open spec fn reports_of(outcomes: Seq<ActionOutcome>) -> Seq<Report>
    decreases outcomes.len(),
{
    if outcomes.len() == 0 {
        Seq::empty()
    } else {
        let before = reports_of(outcomes.drop_last());
        match report_of(outcomes.last()) {
            Some(r) => before.push(r),
            None => before,
        }
    }
}

/// What a sequence of reports says.
pub open spec fn reports(results: Seq<ActionResult>) -> Seq<Report> {
    results.map_values(|r: ActionResult| r@)
}

/// What is reported of one action or evaluator.
pub fn outcome_result(outcome: ActionOutcome) -> (r: Option<ActionResult>)
    ensures
        match r {
            Some(x) => report_of(outcome) == Some(x@),
            None => report_of(outcome) is None,
        },
{
    match outcome {
        ActionOutcome::NotValid => None,
        ActionOutcome::Done(result) => result,
        ActionOutcome::Failed(e) => Some(ActionResult::failure(e.as_str())),
        ActionOutcome::NotFound(name) => {
            let parts: Vec<&str> = vec!["Action not found: ", name.as_str()];
            assert(slices(parts@) =~= seq!["Action not found: "@, name@]);
            let text = glue(&parts);
            Some(ActionResult::failure(text.as_str()))
        },
    }
}

/// Adds what is reported of one action or evaluator.
pub fn add_outcome(results: &mut Vec<ActionResult>, outcome: ActionOutcome)
    ensures
        reports(final(results)@) == match report_of(outcome) {
            Some(r) => reports(old(results)@).push(r),
            None => reports(old(results)@),
        },
{
    match outcome_result(outcome) {
        Some(r) => {
            results.push(r);
            assert(reports(results@) =~= reports(old(results)@).push(r@));
        },
        None => {},
    }
}

/// What is reported of a number of actions or evaluators, in their order.
pub fn collect_results(outcomes: Vec<ActionOutcome>) -> (r: Vec<ActionResult>)
    ensures
        reports(r@) == reports_of(outcomes@),
{
    let mut results: Vec<ActionResult> = Vec::new();
    let ghost all = outcomes@;
    assert(reports(results@) =~= reports_of(all.take(0)));
    for outcome in it: outcomes
        invariant
            it.seq() == all,
            reports(results@) == reports_of(all.take(it.index())),
    {
        assert(all.take(it.index() + 1).drop_last() =~= all.take(it.index()));
        assert(all.take(it.index() + 1).last() == outcome);
        add_outcome(&mut results, outcome);
    }
    assert(all.take(all.len() as int) =~= all);
    results
}

// ---------------------------------------------------------------------------
// Choosing actions
// ---------------------------------------------------------------------------
/// What an action says of itself.
pub struct ActionDefinition {
    pub name: String,
    /// Other names that it goes by.
    pub similes: Option<Vec<String>>,
}

/// What an action says of itself.
#[verifier::ext_equal]
pub struct ActionDef {
    pub name: Seq<char>,
    pub similes: Seq<Seq<char>>,
}

impl View for ActionDefinition {
    type V = ActionDef;

    open spec fn view(&self) -> ActionDef {
        ActionDef {
            name: self.name@,
            similes: match self.similes {
                Some(v) => texts(v@),
                None => Seq::empty(),
            },
        }
    }
}

/// What a sequence of definitions says.
pub open spec fn action_defs(defs: Seq<ActionDefinition>) -> Seq<ActionDef> {
    defs.map_values(|d: ActionDefinition| d@)
}

/// Without planning only the first of `n` actions runs.
pub open spec fn limit(n: int, planning: bool) -> int {
    if planning || n == 0 {
        n
    } else {
        1
    }
}

/// How many of `n` actions run.
pub fn limit_actions(n: usize, planning: bool) -> (r: usize)
    ensures
        r == limit(n as int, planning),
{
    if planning || n == 0 {
        n
    } else {
        1
    }
}

/// An action name by which names are compared: lower case, without underscores.
pub open spec fn normalized(name: Seq<char>) -> Seq<char> {
    without_char(lowercase(name), '_')
}

/// An action name by which names are compared.
pub fn normalize_action_name(name: &str) -> (r: String)
    ensures
        r@ == normalized(name@),
        is_ascii_chars(name@) ==> r@ == without_char(
            name@.map_values(|c: char| ascii_lower(c)),
            '_',
        ),
{
    let lower = to_lowercase(name);
    remove_char(lower.as_str(), '_')
}

/// An action whose name is `wanted`, both normalized.
pub open spec fn is_named(def: ActionDef, wanted: Seq<char>) -> bool {
    normalized(def.name) == wanted
}

/// An action one of whose other names is `wanted`, both normalized.
pub open spec fn is_like(def: ActionDef, wanted: Seq<char>) -> bool {
    exists|i: int| 0 <= i < def.similes.len() && normalized(#[trigger] def.similes[i]) == wanted
}

/// The first action with the name `wanted`.
pub open spec fn first_named(defs: Seq<ActionDef>, wanted: Seq<char>, from: int) -> Option<int>
    decreases defs.len() - from,
{
    if from < 0 || from >= defs.len() {
        None
    } else if is_named(defs[from], wanted) {
        Some(from)
    } else {
        first_named(defs, wanted, from + 1)
    }
}

/// The first action with the other name `wanted`.
pub open spec fn first_like(defs: Seq<ActionDef>, wanted: Seq<char>, from: int) -> Option<int>
    decreases defs.len() - from,
{
    if from < 0 || from >= defs.len() {
        None
    } else if is_like(defs[from], wanted) {
        Some(from)
    } else {
        first_like(defs, wanted, from + 1)
    }
}

/// The action that a name stands for: the first with that name, else the first
/// with that other name.
pub open spec fn action_for(defs: Seq<ActionDef>, name: Seq<char>) -> Option<int> {
    let wanted = normalized(name);
    match first_named(defs, wanted, 0) {
        Some(i) => Some(i),
        None => first_like(defs, wanted, 0),
    }
}

/// Whether an action has the other name `wanted`.
fn check_like(def: &ActionDefinition, wanted: &str) -> (r: bool)
    ensures
        r == is_like(def@, wanted@),
{
    match &def.similes {
        Some(v) => {
            for i in 0..v.len()
                invariant
                    def@.similes == texts(v@),
                    forall|j: int|
                        0 <= j < i ==> normalized(#[trigger] def@.similes[j]) != wanted@,
            {
                assert(def@.similes[i as int] == v@[i as int]@);
                let name = normalize_action_name(v[i].as_str());
                if same_text(name.as_str(), wanted) {
                    return true;
                }
            }
            false
        },
        None => false,
    }
}

/// The action that a name stands for.
pub fn find_action(defs: &Vec<ActionDefinition>, name: &str) -> (r: Option<usize>)
    ensures
        match r {
            Some(i) => action_for(action_defs(defs@), name@) == Some(i as int) && i < defs@.len(),
            None => action_for(action_defs(defs@), name@) is None,
        },
{
    let wanted = normalize_action_name(name);
    let ghost all = action_defs(defs@);
    for i in 0..defs.len()
        invariant
            all == action_defs(defs@),
            wanted@ == normalized(name@),
            first_named(all, wanted@, 0) == first_named(all, wanted@, i as int),
    {
        assert(all[i as int] == defs@[i as int]@);
        let there = normalize_action_name(defs[i].name.as_str());
        if same_text(there.as_str(), wanted.as_str()) {
            return Some(i);
        }
    }
    for i in 0..defs.len()
        invariant
            all == action_defs(defs@),
            wanted@ == normalized(name@),
            first_named(all, wanted@, 0) is None,
            first_like(all, wanted@, 0) == first_like(all, wanted@, i as int),
    {
        assert(all[i as int] == defs@[i as int]@);
        if check_like(&defs[i], wanted.as_str()) {
            return Some(i);
        }
    }
    None
}

/// An action that was chosen, and what it is given.
pub struct PlannedAction<'a> {
    /// The name that it was chosen by.
    pub name: &'a String,
    /// Which of the registered actions it is, if it is one.
    pub handler: Option<usize>,
    /// What it is given.
    pub parameters: Option<&'a StringMap<JsonValue>>,
}

/// What is known of an action that was chosen.
#[verifier::ext_equal]
pub struct Planned {
    pub name: Seq<char>,
    pub handler: Option<int>,
    pub parameters: Option<StringMap<JsonValue>>,
}

impl<'a> PlannedAction<'a> {
    /// What is known of it.
    pub open spec fn says(self) -> Planned {
        Planned {
            name: self.name@,
            handler: match self.handler {
                Some(i) => Some(i as int),
                None => None,
            },
            parameters: match self.parameters {
                Some(p) => Some(*p),
                None => None,
            },
        }
    }
}

/// The key under which the parameters of an action stand.
pub open spec fn parameter_key(name: Seq<char>) -> Seq<char> {
    uppercase(trim(name))
}

/// What is known of an action that was chosen by its name.
pub open spec fn planned(
    defs: Seq<ActionDef>,
    params: Map<Seq<char>, StringMap<JsonValue>>,
    name: Seq<char>,
) -> Planned {
    Planned {
        name,
        handler: action_for(defs, name),
        parameters: if params.contains_key(parameter_key(name)) {
            Some(params[parameter_key(name)])
        } else {
            None
        },
    }
}

/// The actions to run for the names that a model chose: in their order, and
/// without planning only the first.
pub fn plan_actions<'a>(
    defs: &Vec<ActionDefinition>,
    selected: &'a Vec<String>,
    params: &'a StringMap<StringMap<JsonValue>>,
    planning: bool,
) -> (r: Vec<PlannedAction<'a>>)
    ensures
        r@.len() == limit(selected@.len() as int, planning),
        forall|i: int|
            0 <= i < r@.len() ==> (#[trigger] r@[i]).says() == planned(
                action_defs(defs@),
                params@,
                selected@[i]@,
            ),
{
    let n: usize = limit_actions(selected.len(), planning);
    let mut plan: Vec<PlannedAction<'a>> = Vec::new();
    for i in 0..n
        invariant
            n == limit(selected@.len() as int, planning),
            n <= selected@.len(),
            plan@.len() == i,
            forall|j: int|
                0 <= j < i ==> (#[trigger] plan@[j]).says() == planned(
                    action_defs(defs@),
                    params@,
                    selected@[j]@,
                ),
    {
        let name = &selected[i];
        let stripped = trimmed(name.as_str());
        let key = to_uppercase(stripped.as_str());
        plan.push(
            PlannedAction {
                name,
                handler: find_action(defs, name.as_str()),
                parameters: params.get(key.as_str()),
            },
        );
    }
    plan
}

// ---------------------------------------------------------------------------
// Laws
// ---------------------------------------------------------------------------
/// Names that differ only in what normalizing takes away stand for the same
/// action.
pub proof fn same_normal_form_same_action(defs: Seq<ActionDef>, a: Seq<char>, b: Seq<char>)
    requires
        normalized(a) == normalized(b),
    ensures
        action_for(defs, a) == action_for(defs, b),
{
}

/// A registered action is found by its own name, unless one with that name was
/// registered before it.
pub proof fn action_found_by_name(defs: Seq<ActionDef>, i: int)
    requires
        0 <= i < defs.len(),
        forall|j: int| 0 <= j < i ==> !is_named(#[trigger] defs[j], normalized(defs[i].name)),
    ensures
        action_for(defs, defs[i].name) == Some(i),
{
    first_named_at(defs, normalized(defs[i].name), 0, i);
}

proof fn first_named_at(defs: Seq<ActionDef>, wanted: Seq<char>, from: int, i: int)
    requires
        0 <= from <= i < defs.len(),
        is_named(defs[i], wanted),
        forall|j: int| from <= j < i ==> !is_named(#[trigger] defs[j], wanted),
    ensures
        first_named(defs, wanted, from) == Some(i),
    decreases i - from,
{
    if from < i {
        first_named_at(defs, wanted, from + 1, i);
    }
}

/// A name always goes before another name of an earlier action.
pub proof fn name_goes_before_simile(defs: Seq<ActionDef>, name: Seq<char>, i: int)
    requires
        0 <= i < defs.len(),
        is_named(defs[i], normalized(name)),
    ensures
        action_for(defs, name) matches Some(k) && 0 <= k <= i && is_named(defs[k], normalized(name)),
{
    first_named_up_to(defs, normalized(name), 0, i);
}

proof fn first_named_up_to(defs: Seq<ActionDef>, wanted: Seq<char>, from: int, i: int)
    requires
        0 <= from <= i < defs.len(),
        is_named(defs[i], wanted),
    ensures
        first_named(defs, wanted, from) matches Some(k) && from <= k <= i && is_named(defs[k], wanted),
    decreases i - from,
{
    if !is_named(defs[from], wanted) {
        first_named_up_to(defs, wanted, from + 1, i);
    }
}

/// Nothing is reported that did not come of an action, and no more.
pub proof fn no_more_reports_than_outcomes(outcomes: Seq<ActionOutcome>)
    ensures
        reports_of(outcomes).len() <= outcomes.len(),
    decreases outcomes.len(),
{
    if outcomes.len() > 0 {
        no_more_reports_than_outcomes(outcomes.drop_last());
    }
}

proof fn first_like_at(defs: Seq<ActionDef>, wanted: Seq<char>, from: int, i: int)
    requires
        0 <= from <= i < defs.len(),
        is_like(defs[i], wanted),
        forall|j: int| from <= j < i ==> !is_like(#[trigger] defs[j], wanted),
    ensures
        first_like(defs, wanted, from) == Some(i),
    decreases i - from,
{
    if from < i {
        first_like_at(defs, wanted, from + 1, i);
    }
}

proof fn none_named(defs: Seq<ActionDef>, wanted: Seq<char>, from: int)
    requires
        0 <= from,
        forall|j: int| 0 <= j < defs.len() ==> normalized((#[trigger] defs[j]).name) != wanted,
    ensures
        first_named(defs, wanted, from) is None,
    decreases defs.len() - from,
{
    if from < defs.len() {
        none_named(defs, wanted, from + 1);
    }
}

proof fn none_like(defs: Seq<ActionDef>, wanted: Seq<char>, from: int)
    requires
        0 <= from,
        forall|j: int, m: int|
            0 <= j < defs.len() && 0 <= m < defs[j].similes.len() ==> normalized(
                #[trigger] defs[j].similes[m],
            ) != wanted,
    ensures
        first_like(defs, wanted, from) is None,
    decreases defs.len() - from,
{
    if from < defs.len() {
        none_like(defs, wanted, from + 1);
    }
}

/// Every other name of an action finds it, at whatever place it stands among them:
/// where no action has the name itself, the first action that goes by it is found.
pub proof fn action_found_by_any_simile(defs: Seq<ActionDef>, name: Seq<char>, i: int, k: int)
    requires
        0 <= i < defs.len(),
        0 <= k < defs[i].similes.len(),
        normalized(defs[i].similes[k]) == normalized(name),
        forall|j: int|
            0 <= j < defs.len() ==> normalized((#[trigger] defs[j]).name) != normalized(name),
        forall|j: int, m: int|
            0 <= j < i && 0 <= m < defs[j].similes.len() ==> normalized(#[trigger] defs[j].similes[m])
                != normalized(name),
    ensures
        action_for(defs, name) == Some(i),
{
    let wanted = normalized(name);
    none_named(defs, wanted, 0);
    assert(is_like(defs[i], wanted));
    first_like_at(defs, wanted, 0, i);
}

/// The first action that has a name is found by it, whatever names the others have.
pub proof fn action_found_by_its_name(defs: Seq<ActionDef>, name: Seq<char>, i: int)
    requires
        0 <= i < defs.len(),
        normalized(defs[i].name) == normalized(name),
        forall|j: int| 0 <= j < i ==> normalized((#[trigger] defs[j]).name) != normalized(name),
    ensures
        action_for(defs, name) == Some(i),
{
    first_named_at(defs, normalized(name), 0, i);
}

/// A name that no action has or goes by stands for none.
pub proof fn unknown_name_finds_nothing(defs: Seq<ActionDef>, name: Seq<char>)
    requires
        forall|j: int|
            0 <= j < defs.len() ==> normalized((#[trigger] defs[j]).name) != normalized(name),
        forall|j: int, m: int|
            0 <= j < defs.len() && 0 <= m < defs[j].similes.len() ==> normalized(
                #[trigger] defs[j].similes[m],
            ) != normalized(name),
    ensures
        action_for(defs, name) is None,
{
    none_named(defs, normalized(name), 0);
    none_like(defs, normalized(name), 0);
}

/// Names are compared in lower case, and of what they hold only underscores are passed
/// over.
pub proof fn only_case_and_underscores_are_passed_over(a: Seq<char>, b: Seq<char>)
    ensures
        normalized(a) == without_char(lowercase(a), '_'),
        normalized(a) == normalized(b) <==> without_char(lowercase(a), '_') == without_char(
            lowercase(b),
            '_',
        ),
        !lowercase(a).contains('_') ==> normalized(a) == lowercase(a),
{
    let s = lowercase(a);
    if !s.contains('_') {
        assert forall|i: int| 0 <= i < s.len() implies #[trigger] s[i] != '_' by {
            assert(s.contains(s[i]));
        }
        nothing_to_take_out(s, '_');
    }
}

/// With planning all actions run, and without it the first, if there is one.
pub proof fn planning_decides_how_many(n: int)
    requires
        n >= 0,
    ensures
        limit(n, true) == n,
        limit(0, false) == 0,
        n > 0 ==> limit(n, false) == 1,
{
}

/// An action is given what stands under its name, without the whitespace around it and
/// in upper case, and nothing else.
pub proof fn action_gets_its_parameters(
    defs: Seq<ActionDef>,
    params: Map<Seq<char>, StringMap<JsonValue>>,
    name: Seq<char>,
    given: StringMap<JsonValue>,
)
    ensures
        planned(defs, params.insert(uppercase(trim(name)), given), name).parameters == Some(given),
        planned(defs, params.remove(uppercase(trim(name))), name).parameters is None,
        planned(defs, params, name).name == name,
        planned(defs, params, name).handler == action_for(defs, name),
{
}

/// What is reported of a number of actions is what is reported of the first of them,
/// and then of the others. An action that did not want to run or had nothing to say is
/// not reported; one that failed or was not found is reported with its error.
pub proof fn reports_come_in_order(a: Seq<ActionOutcome>, b: Seq<ActionOutcome>, result: ActionResult, text: String)
    ensures
        reports_of(a + b) == reports_of(a) + reports_of(b),
        reports_of(seq![ActionOutcome::NotValid]) == Seq::<Report>::empty(),
        reports_of(seq![ActionOutcome::Done(None)]) == Seq::<Report>::empty(),
        reports_of(seq![ActionOutcome::Done(Some(result))]) == seq![result@],
        reports_of(seq![ActionOutcome::Failed(text)]) == seq![
            Report { success: false, text: None, error: Some(text@), data: None },
        ],
        reports_of(seq![ActionOutcome::NotFound(text)]) == seq![
            Report {
                success: false,
                text: None,
                error: Some("Action not found: "@ + text@),
                data: None,
            },
        ],
    decreases b.len(),
{
    one_report(ActionOutcome::NotValid);
    one_report(ActionOutcome::Done(None));
    one_report(ActionOutcome::Done(Some(result)));
    one_report(ActionOutcome::Failed(text));
    one_report(ActionOutcome::NotFound(text));
    let said = seq!["Action not found: "@, text@];
    glued_in_lots(seq!["Action not found: "@], seq![text@], "Action not found: "@);
    glued_in_lots(Seq::empty(), Seq::empty(), text@);
    assert(seq!["Action not found: "@] + seq![text@] =~= said);
    if b.len() == 0 {
        assert(a + b =~= a);
        assert(reports_of(a) + reports_of(b) =~= reports_of(a));
    } else {
        assert((a + b).drop_last() =~= a + b.drop_last());
        assert((a + b).last() == b.last());
        reports_come_in_order(a, b.drop_last(), result, text);
        assert(reports_of(a + b) =~= reports_of(a) + reports_of(b));
    }
}

proof fn one_report(outcome: ActionOutcome)
    ensures
        reports_of(seq![outcome]) == match report_of(outcome) {
            Some(r) => seq![r],
            None => Seq::empty(),
        },
{
    reveal_with_fuel(reports_of, 2);
    assert(seq![outcome].drop_last() =~= Seq::<ActionOutcome>::empty());
    assert(seq![outcome].last() == outcome);
}

}
