//! What an agent runs for a message: its providers, actions and evaluators, and the
//! models that it asks.
use vstd::prelude::*;
use crate::actions::{action_defs, limit, planned};
use crate::actions::{limit_actions, plan_actions, ActionDefinition, PlannedAction};
use crate::actions::optional_text;
use crate::clock::chrono_timestamp;
use crate::clock::may_be_now;
use crate::compose::{listed_texts, merged, provider_defs, running, ProviderDef};
use crate::compose::{select_providers, ProviderDefinition, ProviderResult, State};
use crate::evaluators::{in_phase, phases_of, positions};
use crate::evaluators::{select_evaluators, EvaluatorDefinition, EvaluatorPhase};
use crate::json::{copy_entries, JsonValue};
use crate::json::json_entries;
use crate::models::{effective, effective_stream, no_handler_text, no_stream_text};
use crate::models::{effective_model, effective_stream_model, no_handler_message, no_stream_message, LLMMode};
use crate::prompt_exec::{levels_of_setting, may_be_field_codes, model_to_ask};
use crate::prompt_exec::{DynamicPromptOptions, PromptSession};
use crate::prompt_text::{code_texts, rows};
use crate::prompt_text::SchemaRow;
use crate::runtime::{found, planning_by};
use crate::runtime::{AgentRuntime, Handle};
use crate::settings::{optional_setting, Setting};
use crate::string_map::StringMap;
use crate::supply::takes_all;
use crate::trajectory::{llm_call, provider_access, LlmCall, Logs, ProviderAccess};
use crate::trajectory::{write_llm_call, write_provider_access};

verus! {

broadcast use {vstd::seq_lib::group_seq_properties, crate::json::json_value_view};

// ---------------------------------------------------------------------------
// Definitions
// ---------------------------------------------------------------------------
/// `define` can be asked for the definition of every handler.
pub open spec fn defines_all<T, F: Fn(Handle) -> T>(define: F) -> bool {
    forall|h: Handle| #[trigger] call_requires(define, (h,))
}

/// `defs` are definitions that `define` may give for the handlers, one for one.
pub open spec fn may_define<T, F: Fn(Handle) -> T>(define: F, handlers: Seq<Handle>, defs: Seq<T>) -> bool {
    &&& defs.len() == handlers.len()
    &&& forall|i: int|
        0 <= i < handlers.len() ==> call_ensures(define, (#[trigger] handlers[i],), defs[i])
}

/// Asks for the definitions of handlers, one after another.
fn define_all<T, F: Fn(Handle) -> T>(handlers: &Vec<Handle>, define: &F) -> (r: Vec<T>)
    requires
        defines_all(*define),
    ensures
        may_define(*define, handlers@, r@),
{
    let mut defs: Vec<T> = Vec::new();
    for i in 0..handlers.len()
        invariant
            defines_all(*define),
            defs@.len() == i,
            forall|j: int|
                0 <= j < i ==> call_ensures(*define, (#[trigger] handlers@[j],), defs@[j]),
    {
        let def = define(handlers[i]);
        defs.push(def);
    }
    defs
}

/// The handlers at a number of places.
pub open spec fn handlers_at(handlers: Seq<Handle>, places: Seq<int>) -> Seq<Handle> {
    places.map_values(|i: int| handlers[i])
}

/// The handlers at a number of places.
fn pick_handlers(handlers: &Vec<Handle>, places: &Vec<usize>) -> (r: Vec<Handle>)
    requires
        forall|i: int| 0 <= i < places@.len() ==> (#[trigger] places@[i]) < handlers@.len(),
    ensures
        r@ == handlers_at(handlers@, positions(places@)),
{
    let mut r: Vec<Handle> = Vec::new();
    for i in 0..places.len()
        invariant
            forall|j: int| 0 <= j < places@.len() ==> (#[trigger] places@[j]) < handlers@.len(),
            r@.len() == i,
            forall|j: int| 0 <= j < i ==> #[trigger] r@[j] == handlers@[places@[j] as int],
    {
        r.push(handlers[places[i]]);
    }
    assert(r@ =~= handlers_at(handlers@, positions(places@)));
    r
}

proof fn running_within(
    defs: Seq<ProviderDef>,
    listed: Option<Seq<Seq<char>>>,
    only: bool,
)
    ensures
        forall|i: int|
            0 <= i < running(defs, listed, only).len() ==> 0 <= #[trigger] running(defs, listed, only)[i]
                < defs.len(),
    decreases defs.len(),
{
    if defs.len() > 0 {
        let before = running(defs.drop_last(), listed, only);
        let all = running(defs, listed, only);
        running_within(defs.drop_last(), listed, only);
        assert forall|i: int| 0 <= i < all.len() implies 0 <= #[trigger] all[i] < defs.len() by {
            if i < before.len() {
                assert(all[i] == before[i]);
            }
        }
    }
}

proof fn in_phase_within(phases: Seq<EvaluatorPhase>, phase: EvaluatorPhase)
    ensures
        forall|i: int|
            0 <= i < in_phase(phases, phase).len() ==> 0 <= #[trigger] in_phase(phases, phase)[i]
                < phases.len(),
    decreases phases.len(),
{
    if phases.len() > 0 {
        let before = in_phase(phases.drop_last(), phase);
        let all = in_phase(phases, phase);
        in_phase_within(phases.drop_last(), phase);
        assert forall|i: int| 0 <= i < all.len() implies 0 <= #[trigger] all[i] < phases.len() by {
            if i < before.len() {
                assert(all[i] == before[i]);
            }
        }
    }
}

impl AgentRuntime {
    /// The definitions of the actions.
    pub fn list_action_definitions<F: Fn(Handle) -> ActionDefinition>(&self, define: &F) -> (r: Vec<
        ActionDefinition,
    >)
        requires
            defines_all(*define),
        ensures
            may_define(*define, self.actions@, r@),
    {
        define_all(&self.actions, define)
    }

    /// The definitions of the providers.
    pub fn list_provider_definitions<F: Fn(Handle) -> ProviderDefinition>(&self, define: &F) -> (r: Vec<
        ProviderDefinition,
    >)
        requires
            defines_all(*define),
        ensures
            may_define(*define, self.providers@, r@),
    {
        define_all(&self.providers, define)
    }

    /// The definitions of the evaluators.
    pub fn list_evaluator_definitions<F: Fn(Handle) -> EvaluatorDefinition>(&self, define: &F) -> (r: Vec<
        EvaluatorDefinition,
    >)
        requires
            defines_all(*define),
        ensures
            may_define(*define, self.evaluators@, r@),
    {
        define_all(&self.evaluators, define)
    }

    // -----------------------------------------------------------------------
    // Providers
    // -----------------------------------------------------------------------
    /// The providers to ask for the state of a message: all but the private ones.
    pub fn compose_state<F: Fn(Handle) -> ProviderDefinition>(&self, define: &F) -> (r: Vec<Handle>)
        requires
            defines_all(*define),
        ensures
            exists|defs: Seq<ProviderDefinition>| #[trigger]
                may_define(*define, self.providers@, defs) && r@ == handlers_at(
                    self.providers@,
                    running(provider_defs(defs), None, false),
                ),
    {
        self.compose_state_filtered(define, None, false)
    }

    /// The providers to ask for the state of a message, in their order. Where names
    /// are given, those run that have them; where not only those count, also those
    /// that are not private.
    pub fn compose_state_filtered<F: Fn(Handle) -> ProviderDefinition>(
        &self,
        define: &F,
        listed: Option<&Vec<String>>,
        only: bool,
    ) -> (r: Vec<Handle>)
        requires
            defines_all(*define),
        ensures
            exists|defs: Seq<ProviderDefinition>| #[trigger]
                may_define(*define, self.providers@, defs) && r@ == handlers_at(
                    self.providers@,
                    running(provider_defs(defs), listed_texts(listed), only),
                ),
    {
        let defs = self.list_provider_definitions(define);
        let places = select_providers(&defs, listed, only);
        proof {
            running_within(provider_defs(defs@), listed_texts(listed), only);
            assert forall|i: int| 0 <= i < places@.len() implies (#[trigger] places@[i])
                < self.providers@.len() by {
                assert(positions(places@)[i] == places@[i]);
            }
        }
        let r = pick_handlers(&self.providers, &places);
        assert(may_define(*define, self.providers@, defs@));
        r
    }

    /// `after` is the runtime that has also kept that a provider was asked.
    pub open spec fn keeps_access(self, after: AgentRuntime, access: ProviderAccess) -> bool {
        &&& after.trajectory_logs@.provider_access == self.trajectory_logs@.provider_access.push(access)
        &&& after.trajectory_logs@.llm_calls == self.trajectory_logs@.llm_calls
        &&& after == (AgentRuntime { trajectory_logs: after.trajectory_logs, ..self })
    }

    /// `after` is the runtime that has also kept what a model said.
    pub open spec fn keeps_call(self, after: AgentRuntime, call: LlmCall) -> bool {
        &&& after.trajectory_logs@.llm_calls == self.trajectory_logs@.llm_calls.push(call)
        &&& after.trajectory_logs@.provider_access == self.trajectory_logs@.provider_access
        &&& after == (AgentRuntime { trajectory_logs: after.trajectory_logs, ..self })
    }

    /// Takes what a provider says into the state for a message, at the time `now`.
    /// Where there is a step, it is kept that the provider was asked.
    pub fn take_provided_at(
        &mut self,
        state: &mut State,
        step_id: &Option<String>,
        provider: &str,
        result: &ProviderResult,
        message: &Option<String>,
        now: i64,
    )
        ensures
            final(state)@ == merged(old(state)@, result@),
            step_id is None ==> *final(self) == *old(self),
            step_id matches Some(step) ==> {
                &&& *final(self) == (AgentRuntime {
                    trajectory_logs: final(self).trajectory_logs,
                    ..*old(self)
                })
                &&& final(self).trajectory_logs@ == (Logs {
                    provider_access: old(self).trajectory_logs@.provider_access.push(
                        provider_access(step@, provider@, optional_text(*message), now),
                    ),
                    ..old(self).trajectory_logs@
                })
            },
            step_id matches Some(step) ==> old(self).keeps_access(
                *final(self),
                provider_access(step@, provider@, optional_text(*message), now),
            ),
    {
        state.merge_result(result);
        if let Some(step) = step_id {
            let access = write_provider_access(step.clone(), provider, message, now);
            self.trajectory_logs.provider_access.push(access);
            assert(self.trajectory_logs@ =~= (Logs {
                provider_access: old(self).trajectory_logs@.provider_access.push(access@),
                ..old(self).trajectory_logs@
            }));
        }
    }

    /// Takes what a provider says into the state for a message. Where there is a
    /// step, it is kept that the provider was asked, and when; where the clock
    /// then stands before 1970, nothing is done and the result is false.
    pub fn take_provided(
        &mut self,
        state: &mut State,
        step_id: &Option<String>,
        provider: &str,
        result: &ProviderResult,
        message: &Option<String>,
    ) -> (r: bool)
        ensures
            step_id is None ==> r && *final(self) == *old(self),
            r ==> final(state)@ == merged(old(state)@, result@),
            step_id matches Some(step) ==> (r ==> exists|now: i64|
                may_be_now(Some(now)) && final(self).trajectory_logs@ == (Logs {
                    provider_access: old(self).trajectory_logs@.provider_access.push(
                        #[trigger] provider_access(step@, provider@, optional_text(*message), now),
                    ),
                    ..old(self).trajectory_logs@
                })),
            *final(self) == (AgentRuntime {
                trajectory_logs: final(self).trajectory_logs,
                ..*old(self)
            }),
            !r ==> may_be_now(None) && *final(self) == *old(self) && *final(state) == *old(state),
    {
        match step_id {
            Some(step) => match chrono_timestamp() {
                Some(now) => {
                    self.take_provided_at(state, step_id, provider, result, message, now);
                    assert(self.trajectory_logs@.provider_access.last() == provider_access(
                        step@,
                        provider@,
                        optional_text(*message),
                        now,
                    ));
                    true
                },
                None => false,
            },
            None => {
                state.merge_result(result);
                true
            },
        }
    }

    // -----------------------------------------------------------------------
    // Actions and evaluators
    // -----------------------------------------------------------------------
    /// The actions to try for a message: all of them, and without planning only the
    /// first.
    pub fn actions_to_run(&self, planning: bool) -> (r: Vec<Handle>)
        ensures
            r@ == self.actions@.take(limit(self.actions@.len() as int, planning)),
    {
        let n: usize = limit_actions(self.actions.len(), planning);
        let mut r: Vec<Handle> = Vec::new();
        for i in 0..n
            invariant
                n <= self.actions@.len(),
                r@ == self.actions@.take(i as int),
        {
            r.push(self.actions[i]);
            assert(r@ =~= self.actions@.take(i + 1));
        }
        r
    }

    /// Planning may be on: as the options say, else as the setting may be read.
    pub open spec fn may_plan<D: Fn(&String) -> String>(self, decrypt: D, planning: bool) -> bool {
        match self.action_planning_option {
            Some(b) => planning == b,
            None => exists|read: Option<Setting>| #[trigger]
                self.may_read("ACTION_PLANNING"@, decrypt, read) && planning == planning_by(
                    None,
                    read,
                ),
        }
    }

    /// The actions to try for a message: all of them, and only the first where
    /// planning is switched off.
    pub fn process_actions<D: Fn(&String) -> String>(&self, decrypt: &D) -> (r: Vec<Handle>)
        requires
            takes_all(*decrypt),
        ensures
            exists|planning: bool| #[trigger]
                self.may_plan(*decrypt, planning) && r@ == self.actions@.take(
                    limit(self.actions@.len() as int, planning),
                ),
    {
        let planning = self.is_action_planning_enabled(decrypt);
        assert(self.may_plan(*decrypt, planning));
        self.actions_to_run(planning)
    }

    /// The actions to run for the names that a model chose, with what each is
    /// given: in their order, and only the first where planning is switched off.
    pub fn process_selected_actions<
        'a,
        D: Fn(&String) -> String,
        F: Fn(Handle) -> ActionDefinition,
    >(
        &self,
        selected: &'a Vec<String>,
        params: &'a StringMap<StringMap<JsonValue>>,
        decrypt: &D,
        define: &F,
    ) -> (r: Vec<PlannedAction<'a>>)
        requires
            takes_all(*decrypt),
            defines_all(*define),
        ensures
            exists|planning: bool, defs: Seq<ActionDefinition>| #[trigger]
                self.may_plan(*decrypt, planning) && #[trigger] may_define(
                    *define,
                    self.actions@,
                    defs,
                ) && r@.len() == limit(selected@.len() as int, planning) && forall|i: int|
                    0 <= i < r@.len() ==> (#[trigger] r@[i]).says() == planned(
                        action_defs(defs),
                        params@,
                        selected@[i]@,
                    ),
    {
        let planning = self.is_action_planning_enabled(decrypt);
        assert(self.may_plan(*decrypt, planning));
        let defs = self.list_action_definitions(define);
        let r = plan_actions(&defs, selected, params, planning);
        assert(may_define(*define, self.actions@, defs@));
        r
    }

    /// The evaluators that run in `phase`, in their order.
    fn evaluators_in<F: Fn(Handle) -> EvaluatorDefinition>(&self, define: &F, phase: EvaluatorPhase) -> (r: Vec<
        Handle,
    >)
        requires
            defines_all(*define),
        ensures
            exists|defs: Seq<EvaluatorDefinition>| #[trigger]
                may_define(*define, self.evaluators@, defs) && r@ == handlers_at(
                    self.evaluators@,
                    in_phase(phases_of(defs), phase),
                ),
    {
        let defs = self.list_evaluator_definitions(define);
        let places = select_evaluators(&defs, phase);
        proof {
            in_phase_within(phases_of(defs@), phase);
            assert forall|i: int| 0 <= i < places@.len() implies (#[trigger] places@[i])
                < self.evaluators@.len() by {
                assert(positions(places@)[i] == places@[i]);
            }
        }
        let r = pick_handlers(&self.evaluators, &places);
        assert(may_define(*define, self.evaluators@, defs@));
        r
    }

    /// The evaluators that run before a message is stored.
    pub fn evaluate_pre<F: Fn(Handle) -> EvaluatorDefinition>(&self, define: &F) -> (r: Vec<Handle>)
        requires
            defines_all(*define),
        ensures
            exists|defs: Seq<EvaluatorDefinition>| #[trigger]
                may_define(*define, self.evaluators@, defs) && r@ == handlers_at(
                    self.evaluators@,
                    in_phase(phases_of(defs), EvaluatorPhase::Pre),
                ),
    {
        self.evaluators_in(define, EvaluatorPhase::Pre)
    }

    /// The evaluators that run after a message was answered.
    pub fn evaluate_message<F: Fn(Handle) -> EvaluatorDefinition>(&self, define: &F) -> (r: Vec<Handle>)
        requires
            defines_all(*define),
        ensures
            exists|defs: Seq<EvaluatorDefinition>| #[trigger]
                may_define(*define, self.evaluators@, defs) && r@ == handlers_at(
                    self.evaluators@,
                    in_phase(phases_of(defs), EvaluatorPhase::Post),
                ),
    {
        self.evaluators_in(define, EvaluatorPhase::Post)
    }
}

// ---------------------------------------------------------------------------
// Models
// ---------------------------------------------------------------------------
/// How a model is asked.
pub enum ModelCall {
    /// By this handler, which is registered for `model`.
    Call { model: String, handler: Handle },
    /// Not at all: no handler is registered for it.
    Missing { message: String },
}

/// How a model is asked: `handler` is the one registered for it, and `missing` is
/// said where there is none.
pub open spec fn is_call(call: ModelCall, model: Seq<char>, handler: Option<Handle>, missing: Seq<char>) -> bool {
    match handler {
        Some(h) => call matches ModelCall::Call { model: m, handler: k } && m@ == model && k == h,
        None => call matches ModelCall::Missing { message } && message@ == missing,
    }
}

impl AgentRuntime {
    /// How the model `model_type` is asked in a mode.
    pub fn use_model_in(&self, model_type: &str, mode: LLMMode) -> (r: ModelCall)
        ensures
            is_call(
                r,
                effective(model_type@, mode),
                found(self.model_handlers@, effective(model_type@, mode)),
                no_handler_text(effective(model_type@, mode)),
            ),
    {
        let model = effective_model(model_type, mode);
        match self.model_handlers.get(model.as_str()) {
            Some(h) => ModelCall::Call { handler: *h, model },
            None => ModelCall::Missing { message: no_handler_message(model.as_str()) },
        }
    }

    /// How the model `model_type` is asked in a mode, where the answer comes piece
    /// by piece.
    pub fn use_model_stream_in(&self, model_type: &str, mode: LLMMode) -> (r: ModelCall)
        ensures
            is_call(
                r,
                effective_stream(model_type@, mode),
                found(self.streaming_model_handlers@, effective_stream(model_type@, mode)),
                no_stream_text(effective_stream(model_type@, mode)),
            ),
    {
        let model = effective_stream_model(model_type, mode);
        match self.streaming_model_handlers.get(model.as_str()) {
            Some(h) => ModelCall::Call { handler: *h, model },
            None => ModelCall::Missing { message: no_stream_message(model.as_str()) },
        }
    }

    /// How the model `model_type` is asked.
    pub fn use_model<D: Fn(&String) -> String, P: Fn(&String) -> LLMMode>(
        &self,
        model_type: &str,
        decrypt: &D,
        parse: &P,
    ) -> (r: ModelCall)
        requires
            takes_all(*decrypt),
            forall|w: &String| #[trigger] call_requires(*parse, (w,)),
        ensures
            exists|mode: LLMMode| #[trigger]
                self.may_have_mode(*decrypt, *parse, mode) && is_call(
                    r,
                    effective(model_type@, mode),
                    found(self.model_handlers@, effective(model_type@, mode)),
                    no_handler_text(effective(model_type@, mode)),
                ),
    {
        let mode = self.get_llm_mode(decrypt, parse);
        let r = self.use_model_in(model_type, mode);
        assert(self.may_have_mode(*decrypt, *parse, mode));
        r
    }

    /// How the model `model_type` is asked, where the answer comes piece by piece.
    pub fn use_model_stream<D: Fn(&String) -> String, P: Fn(&String) -> LLMMode>(
        &self,
        model_type: &str,
        decrypt: &D,
        parse: &P,
    ) -> (r: ModelCall)
        requires
            takes_all(*decrypt),
            forall|w: &String| #[trigger] call_requires(*parse, (w,)),
        ensures
            exists|mode: LLMMode| #[trigger]
                self.may_have_mode(*decrypt, *parse, mode) && is_call(
                    r,
                    effective_stream(model_type@, mode),
                    found(self.streaming_model_handlers@, effective_stream(model_type@, mode)),
                    no_stream_text(effective_stream(model_type@, mode)),
                ),
    {
        let mode = self.get_llm_mode(decrypt, parse);
        let r = self.use_model_stream_in(model_type, mode);
        assert(self.may_have_mode(*decrypt, *parse, mode));
        r
    }

    /// Keeps, where there is a step, that a model was asked from `start` to `end`
    /// and what it answered. The result is false, and nothing is kept, where the time
    /// between them is too long to count.
    pub fn model_answered_at(&mut self, model: &str, params: &JsonValue, response: &str, start: i64, end: i64) -> (r: bool)
        ensures
            r <==> old(self).current_trajectory_step_id is None || end - start <= i64::MAX,
            match old(self).current_trajectory_step_id {
                Some(step) if r => {
                    &&& *final(self) == (AgentRuntime {
                        trajectory_logs: final(self).trajectory_logs,
                        ..*old(self)
                    })
                    &&& final(self).trajectory_logs@ == (Logs {
                        llm_calls: old(self).trajectory_logs@.llm_calls.push(
                            llm_call(step@, model@, params@, response@, start as int, end),
                        ),
                        ..old(self).trajectory_logs@
                    })
                },
                _ => *final(self) == *old(self),
            },
            old(self).current_trajectory_step_id matches Some(step) ==> (r ==> old(self).keeps_call(
                *final(self),
                llm_call(step@, model@, params@, response@, start as int, end),
            )),
    {
        if let Some(step) = self.get_trajectory_step_id() {
            if end as i128 - start as i128 > i64::MAX as i128 {
                return false;
            }
            let call = write_llm_call(step, model, params, response, start, end);
            self.trajectory_logs.llm_calls.push(call);
            assert(self.trajectory_logs@ =~= (Logs {
                llm_calls: old(self).trajectory_logs@.llm_calls.push(call@),
                ..old(self).trajectory_logs@
            }));
        }
        true
    }

    /// Keeps, where there is a step, that a model was asked from `start` on and
    /// what it answered. The result is false, and nothing is kept, where the clock
    /// stands before 1970 or the time from `start` on is too long to count.
    pub fn model_answered(&mut self, model: &str, params: &JsonValue, response: &str, start: i64) -> (r: bool)
        ensures
            old(self).current_trajectory_step_id is None ==> r && *final(self) == *old(self),
            old(self).current_trajectory_step_id matches Some(step) ==> (r ==> exists|end: i64|
                may_be_now(Some(end)) && end - start <= i64::MAX && final(self).trajectory_logs@ == (Logs {
                    llm_calls: old(self).trajectory_logs@.llm_calls.push(
                        #[trigger] llm_call(step@, model@, params@, response@, start as int, end),
                    ),
                    ..old(self).trajectory_logs@
                })),
            *final(self) == (AgentRuntime {
                trajectory_logs: final(self).trajectory_logs,
                ..*old(self)
            }),
            !r ==> *final(self) == *old(self) && (may_be_now(None) || exists|end: i64| #[trigger]
                may_be_now(Some(end)) && end - start > i64::MAX),
    {
        if self.current_trajectory_step_id.is_none() {
            return true;
        }
        match chrono_timestamp() {
            Some(end) => {
                let kept = self.model_answered_at(model, params, response, start, end);
                proof {
                    let step = old(self).current_trajectory_step_id->Some_0;
                    if kept {
                        assert(self.trajectory_logs@.llm_calls.last() == llm_call(
                            step@,
                            model@,
                            params@,
                            response@,
                            start as int,
                            end,
                        ));
                    }
                }
                kept
            },
            None => false,
        }
    }

    /// Starts running a prompt that asks for a structured answer, with the values of
    /// the state. `hex` makes the codes of the fields.
    pub fn dynamic_prompt_exec_from_state<
        B,
        D: Fn(&String) -> String,
        F: Fn(&String) -> String,
    >(
        &self,
        state: &State,
        prompt: &str,
        schema: Vec<SchemaRow>,
        options: DynamicPromptOptions<B>,
        decrypt: &D,
        hex: &F,
    ) -> (r: PromptSession<B>)
        requires
            takes_all(*decrypt),
            takes_all(*hex),
        ensures
            r.running(),
            r.template@ == prompt@,
            r.schema == schema,
            json_entries(r.values@) == state@.values,
            r.options == options,
            r.model@ == model_to_ask(options),
            exists|read: Option<Setting>| #[trigger]
                self.may_read("VALIDATION_LEVEL"@, *decrypt, read) && r.level
                    == options.context_check_level.unwrap_or(levels_of_setting(read).0)
                    && r.max_retries == options.max_retries.unwrap_or(levels_of_setting(read).1),
            r.retry == 0,
            may_be_field_codes(*hex, rows(schema@), r.level, code_texts(r.field_codes@)),
            r.note is None,
            r.last_error is None,
            exists|read: Option<Setting>| #[trigger]
                self.may_read("VALIDATION_LEVEL"@, *decrypt, read) && r.goes_by(read),
    {
        let setting = self.get_setting("VALIDATION_LEVEL", decrypt);
        let ghost read = optional_setting(setting);
        let r = PromptSession::start(
            prompt.to_owned(),
            schema,
            copy_entries(&state.values),
            options,
            &setting,
            hex,
        );
        assert(self.may_read("VALIDATION_LEVEL"@, *decrypt, read));
        r
    }
}

// ---------------------------------------------------------------------------
// Laws
// ---------------------------------------------------------------------------
/// The handlers at a number of places are just those, one for one and in that order.
pub proof fn handlers_are_picked_one_for_one(handlers: Seq<Handle>, places: Seq<int>, i: int)
    ensures
        handlers_at(handlers, places).len() == places.len(),
        0 <= i < places.len() ==> handlers_at(handlers, places)[i] == handlers[places[i]],
{
}

/// A model is asked by the handler that is registered for it, under its name; where there
/// is none, it is not asked.
pub proof fn registered_handler_is_called(call: ModelCall, model: Seq<char>, handler: Option<Handle>, missing: Seq<char>)
    requires
        is_call(call, model, handler, missing),
    ensures
        handler matches Some(h) ==> (call matches ModelCall::Call { model: m, handler: k } && m@ == model && k
            == h),
        handler is None ==> (call matches ModelCall::Missing { message } && message@ == missing),
{
}

/// Definitions are asked for one for one: each is what its own handler may say.
pub proof fn each_handler_is_defined<T, F: Fn(Handle) -> T>(define: F, handlers: Seq<Handle>, defs: Seq<T>, i: int)
    requires
        may_define(define, handlers, defs),
    ensures
        defs.len() == handlers.len(),
        0 <= i < handlers.len() ==> call_ensures(define, (handlers[i],), defs[i]),
{
}

/// What is kept is kept in the order in which it happened, and nothing that was kept before
/// is lost or changed.
pub proof fn what_happened_is_kept(
    before: AgentRuntime,
    after: AgentRuntime,
    access: ProviderAccess,
    call: LlmCall,
    i: int,
)
    ensures
        before.keeps_access(after, access) ==> {
            &&& after.trajectory_logs@.provider_access.last() == access
            &&& after.trajectory_logs@.provider_access.len()
                == before.trajectory_logs@.provider_access.len() + 1
            &&& 0 <= i < before.trajectory_logs@.provider_access.len()
                ==> after.trajectory_logs@.provider_access[i] == before.trajectory_logs@.provider_access[i]
            &&& after.trajectory_logs@.llm_calls == before.trajectory_logs@.llm_calls
            &&& after.tasks == before.tasks && after.current_trajectory_step_id
                == before.current_trajectory_step_id
        },
        before.keeps_call(after, call) ==> {
            &&& after.trajectory_logs@.llm_calls.last() == call
            &&& after.trajectory_logs@.llm_calls.len() == before.trajectory_logs@.llm_calls.len() + 1
            &&& 0 <= i < before.trajectory_logs@.llm_calls.len() ==> after.trajectory_logs@.llm_calls[i]
                == before.trajectory_logs@.llm_calls[i]
            &&& after.trajectory_logs@.provider_access == before.trajectory_logs@.provider_access
            &&& after.tasks == before.tasks && after.current_trajectory_step_id
                == before.current_trajectory_step_id
        },
{
}

}
