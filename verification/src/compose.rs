//! The state for a message, put together from what the providers say.
use vstd::prelude::*;
use vstd::string::*;
use crate::actions::optional_text;
use crate::evaluators::positions;
use crate::json::{json_entries, Json};
use crate::json::JsonValue;
use crate::rewrite::texts;
use crate::string_map::StringMap;
use crate::text::same_text;

verus! {

broadcast use vstd::seq_lib::group_seq_properties;

/// What a provider says of itself.
pub struct ProviderDefinition {
    pub name: String,
    /// It runs only where it is asked for by name.
    pub private: Option<bool>,
    /// What it says may differ from message to message.
    pub dynamic: Option<bool>,
}

/// What a provider says of itself.
#[verifier::ext_equal]
pub struct ProviderDef {
    pub name: Seq<char>,
    pub private: bool,
    pub dynamic: bool,
}

impl View for ProviderDefinition {
    type V = ProviderDef;

    open spec fn view(&self) -> ProviderDef {
        ProviderDef {
            name: self.name@,
            private: self.private.unwrap_or(false),
            dynamic: self.dynamic.unwrap_or(false),
        }
    }
}

/// What a sequence of definitions says.
pub open spec fn provider_defs(defs: Seq<ProviderDefinition>) -> Seq<ProviderDef> {
    defs.map_values(|d: ProviderDefinition| d@)
}

/// What a provider has to say.
pub struct ProviderResult {
    pub text: Option<String>,
    pub values: Option<StringMap<JsonValue>>,
}

/// The state for a message.
pub struct State {
    pub text: String,
    pub values: StringMap<JsonValue>,
}

/// What the state for a message holds.
#[verifier::ext_equal]
pub struct Composed {
    pub text: Seq<char>,
    pub values: Map<Seq<char>, Json>,
}

/// What a provider has to say.
#[verifier::ext_equal]
pub struct Provided {
    pub text: Option<Seq<char>>,
    pub values: Map<Seq<char>, Json>,
}

impl View for State {
    type V = Composed;

    open spec fn view(&self) -> Composed {
        Composed { text: self.text@, values: json_entries(self.values@) }
    }
}

impl View for ProviderResult {
    type V = Provided;

    open spec fn view(&self) -> Provided {
        Provided {
            text: optional_text(self.text),
            values: match self.values {
                Some(m) => json_entries(m@),
                None => Map::empty(),
            },
        }
    }
}

// ---------------------------------------------------------------------------
// Choosing providers
// ---------------------------------------------------------------------------
/// A provider runs: without names if it is not private; where names are given
/// besides, also if it is one of them; and where only those count, if it is one.
pub open spec fn runs(def: ProviderDef, listed: Option<Seq<Seq<char>>>, only: bool) -> bool {
    match listed {
        Some(names) => names.contains(def.name) || (!only && !def.private),
        None => !def.private,
    }
}

/// The positions of the providers that run.
pub open spec fn running(defs: Seq<ProviderDef>, listed: Option<Seq<Seq<char>>>, only: bool) -> Seq<int>
    decreases defs.len(),
{
    if defs.len() == 0 {
        Seq::empty()
    } else {
        let before = running(defs.drop_last(), listed, only);
        if runs(defs.last(), listed, only) {
            before.push(defs.len() - 1)
        } else {
            before
        }
    }
}

/// The names that are given.
pub open spec fn listed_texts(listed: Option<&Vec<String>>) -> Option<Seq<Seq<char>>> {
    match listed {
        Some(v) => Some(texts(v@)),
        None => None,
    }
}

/// Whether a name is one of `names`.
fn is_listed(names: &Vec<String>, name: &str) -> (r: bool)
    ensures
        r == texts(names@).contains(name@),
{
    for i in 0..names.len()
        invariant
            forall|j: int| 0 <= j < i ==> #[trigger] texts(names@)[j] != name@,
    {
        assert(texts(names@)[i as int] == names@[i as int]@);
        if same_text(names[i].as_str(), name) {
            return true;
        }
    }
    false
}

/// Whether a provider runs.
pub fn should_run(def: &ProviderDefinition, listed: Option<&Vec<String>>, only: bool) -> (r: bool)
    ensures
        r == runs(def@, listed_texts(listed), only),
{
    let private = match def.private {
        Some(b) => b,
        None => false,
    };
    match listed {
        Some(names) => is_listed(names, def.name.as_str()) || (!only && !private),
        None => !private,
    }
}

/// The providers that run.
pub fn select_providers(defs: &Vec<ProviderDefinition>, listed: Option<&Vec<String>>, only: bool) -> (r: Vec<usize>)
    ensures
        positions(r@) == running(provider_defs(defs@), listed_texts(listed), only),
{
    let mut r: Vec<usize> = Vec::new();
    let ghost all = provider_defs(defs@);
    assert(positions(r@) =~= Seq::empty());
    for i in 0..defs.len()
        invariant
            all == provider_defs(defs@),
            positions(r@) == running(all.take(i as int), listed_texts(listed), only),
    {
        assert(all.take(i + 1).drop_last() =~= all.take(i as int));
        assert(all.take(i + 1).last() == defs@[i as int]@);
        if should_run(&defs[i], listed, only) {
            let ghost before = r@;
            r.push(i);
            assert(positions(r@) =~= positions(before).push(i as int));
        }
    }
    assert(all.take(defs@.len() as int) =~= all);
    r
}

// ---------------------------------------------------------------------------
// Putting the state together
// ---------------------------------------------------------------------------
/// The state after one more provider: its text on a new line, and its values in
/// place of those with the same keys.
pub open spec fn merged(state: Composed, provided: Provided) -> Composed {
    Composed {
        text: match provided.text {
            Some(t) => if state.text.len() == 0 {
                t
            } else {
                state.text.push('\n') + t
            },
            None => state.text,
        },
        values: state.values.union_prefer_right(provided.values),
    }
}

/// The state that a number of providers make, one after another. Those that
/// failed add nothing.
pub open spec fn composed(provided: Seq<Option<Provided>>) -> Composed
    decreases provided.len(),
{
    if provided.len() == 0 {
        Composed { text: Seq::empty(), values: Map::empty() }
    } else {
        let before = composed(provided.drop_last());
        match provided.last() {
            Some(p) => merged(before, p),
            None => before,
        }
    }
}

impl State {
    /// The empty state.
    pub fn new() -> (r: State)
        ensures
            r@ == composed(Seq::empty()),
    {
        let r = State { text: String::new(), values: StringMap::new() };
        assert(r@ =~= composed(Seq::empty()));
        r
    }

    /// Puts values in place of those with the same keys.
    pub fn merge_values(&mut self, values: &StringMap<JsonValue>)
        ensures
            final(self).text == old(self).text,
            json_entries(final(self).values@) == json_entries(old(self).values@).union_prefer_right(
                json_entries(values@),
            ),
    {
        let n: usize = values.len();
        let ghost keys = values.keys();
        let ghost before = json_entries(self.values@);
        let ghost added = json_entries(values@);
        assert(before.union_prefer_right(added.restrict(keys.take(0).to_set())) =~= before);
        for i in 0..n
            invariant
                n == keys.len(),
                keys == values.keys(),
                added == json_entries(values@),
                self.text == old(self).text,
                json_entries(self.values@) == before.union_prefer_right(
                    added.restrict(keys.take(i as int).to_set()),
                ),
        {
            let key = values.key_at(i);
            let value = values.value_at(i).copy();
            let ghost held = self.values@;
            self.values.insert(key.clone(), value);
            proof {
                assert(json_entries(self.values@) =~= json_entries(held).insert(
                    keys[i as int],
                    added[keys[i as int]],
                ));
                assert(keys.take(i + 1) =~= keys.take(i as int).push(keys[i as int]));
                assert(keys.take(i + 1).to_set() =~= keys.take(i as int).to_set().insert(
                    keys[i as int],
                ));
                assert(json_entries(self.values@) =~= before.union_prefer_right(
                    added.restrict(keys.take(i + 1).to_set()),
                ));
            }
        }
        proof {
            assert(keys.take(n as int) =~= keys);
            assert(added.restrict(keys.to_set()) =~= added) by {
                assert forall|k: Seq<char>| added.contains_key(k) implies keys.to_set().contains(k) by {
                    assert(keys.contains(k));
                }
            }
        }
    }

    /// Takes in what a provider says.
    pub fn merge_result(&mut self, result: &ProviderResult)
        ensures
            final(self)@ == merged(old(self)@, result@),
    {
        match &result.text {
            Some(t) => {
                if !self.text.as_str().is_empty() {
                    self.text.push('\n');
                }
                self.text.append(t.as_str());
                assert(old(self)@.text.len() == 0 ==> self.text@ =~= t@);
            },
            None => {},
        }
        match &result.values {
            Some(values) => {
                self.merge_values(values);
            },
            None => {
                assert(self@.values.union_prefer_right(Map::empty()) =~= self@.values);
            },
        }
    }
}

// ---------------------------------------------------------------------------
// Laws
// ---------------------------------------------------------------------------
/// A private provider runs only where it is asked for by name.
pub proof fn private_runs_only_by_name(def: ProviderDef, listed: Option<Seq<Seq<char>>>, only: bool)
    requires
        def.private,
        runs(def, listed, only),
    ensures
        listed matches Some(names) && names.contains(def.name),
{
}

/// A provider that is asked for by name runs, whether or not only those count.
pub proof fn listed_runs(def: ProviderDef, names: Seq<Seq<char>>, only: bool)
    requires
        names.contains(def.name),
    ensures
        runs(def, Some(names), only),
{
}

/// Where only the given names count, no other provider runs.
pub proof fn exclusive_runs_only_listed(def: ProviderDef, names: Seq<Seq<char>>)
    requires
        !names.contains(def.name),
    ensures
        !runs(def, Some(names), true),
{
}

/// Every provider that runs where only the given names count also runs where the
/// names are given besides.
pub proof fn exclusive_within_additive(def: ProviderDef, names: Seq<Seq<char>>)
    requires
        runs(def, Some(names), true),
    ensures
        runs(def, Some(names), false),
{
}

/// Where names are given besides, those providers run that run without names, and
/// those that have the names.
pub proof fn names_are_added(def: ProviderDef, names: Seq<Seq<char>>, only: bool)
    ensures
        runs(def, Some(names), false) <==> runs(def, None, only) || names.contains(def.name),
{
}

/// Whatever runs without names also runs where names are given besides.
pub proof fn additive_names_keep(def: ProviderDef, names: Seq<Seq<char>>, only: bool)
    requires
        runs(def, None, only),
    ensures
        runs(def, Some(names), false),
{
}

/// The places of the providers that run are those of all that run.
pub proof fn running_iff_runs(defs: Seq<ProviderDef>, listed: Option<Seq<Seq<char>>>, only: bool, i: int)
    ensures
        running(defs, listed, only).contains(i) <==> 0 <= i < defs.len() && runs(defs[i], listed, only),
    decreases defs.len(),
{
    if defs.len() > 0 {
        let rest = defs.drop_last();
        let before = running(rest, listed, only);
        let all = running(defs, listed, only);
        running_iff_runs(rest, listed, only, i);
        if all.contains(i) {
            let k = choose|k: int| 0 <= k < all.len() && all[k] == i;
            if k < before.len() {
                assert(before[k] == i);
                assert(before.contains(i));
            }
        }
        if before.contains(i) {
            let k = choose|k: int| 0 <= k < before.len() && before[k] == i;
            assert(all[k] == i);
        }
        if i == defs.len() - 1 && runs(defs[i], listed, only) {
            assert(all.last() == i);
        }
    }
}

/// Every provider that is asked without names is also asked where names are given
/// besides.
pub proof fn additive_names_keep_running(defs: Seq<ProviderDef>, names: Seq<Seq<char>>, only: bool, i: int)
    requires
        running(defs, None, only).contains(i),
    ensures
        running(defs, Some(names), false).contains(i),
{
    running_iff_runs(defs, None, only, i);
    running_iff_runs(defs, Some(names), false, i);
}

/// A later provider's value stands in place of an earlier one's.
pub proof fn later_value_wins(state: Composed, provided: Provided, key: Seq<char>)
    requires
        provided.values.contains_key(key),
    ensures
        merged(state, provided).values.contains_key(key),
        merged(state, provided).values[key] == provided.values[key],
{
}

/// One more provider adds what it says to the state, and one that failed adds
/// nothing.
pub proof fn provider_adds_to_state(provided: Seq<Option<Provided>>, next: Option<Provided>)
    ensures
        composed(provided.push(next)) == match next {
            Some(p) => merged(composed(provided), p),
            None => composed(provided),
        },
{
    assert(provided.push(next).drop_last() =~= provided);
}

/// A provider never takes anything away: the text only grows at its end, and no
/// key is lost.
pub proof fn merging_keeps(state: Composed, provided: Provided)
    ensures
        state.text.len() <= merged(state, provided).text.len(),
        merged(state, provided).text.take(state.text.len() as int) == state.text,
        state.values.dom().subset_of(merged(state, provided).values.dom()),
{
    assert(merged(state, provided).text.take(state.text.len() as int) =~= state.text);
}

/// Without names all providers run but the private ones; with names besides also those
/// that have them; and where only the names count, just those that have them.
pub proof fn who_runs(def: ProviderDef, names: Seq<Seq<char>>, only: bool)
    ensures
        runs(def, None, only) <==> !def.private,
        runs(def, Some(names), false) <==> !def.private || (exists|i: int|
            0 <= i < names.len() && #[trigger] names[i] == def.name),
        runs(def, Some(names), true) <==> (exists|i: int|
            0 <= i < names.len() && #[trigger] names[i] == def.name),
{
    assert(names.contains(def.name) <==> exists|i: int|
        0 <= i < names.len() && #[trigger] names[i] == def.name);
}

/// The providers that run do so in the order in which they are registered, each once.
pub proof fn providers_run_in_order(defs: Seq<ProviderDef>, listed: Option<Seq<Seq<char>>>, only: bool, i: int, j: int)
    requires
        0 <= i < j < running(defs, listed, only).len(),
    ensures
        running(defs, listed, only)[i] < running(defs, listed, only)[j],
    decreases defs.len(),
{
    let rest = defs.drop_last();
    let before = running(rest, listed, only);
    let all = running(defs, listed, only);
    if j < before.len() {
        providers_run_in_order(rest, listed, only, i, j);
        assert(all[i] == before[i] && all[j] == before[j]);
    } else {
        assert(all[i] == before[i]);
        assert(before.contains(before[i]));
        running_iff_runs(rest, listed, only, before[i]);
    }
}

/// What a provider says comes behind the text on a line of its own, or first where there
/// is no text yet; without a text it adds none.
pub proof fn text_comes_on_a_new_line(state: Composed, provided: Provided, text: Seq<char>)
    ensures
        provided.text == Some(text) && state.text.len() > 0 ==> merged(state, provided).text == state.text
            + seq!['\n'] + text,
        provided.text == Some(text) && state.text.len() == 0 ==> merged(state, provided).text == text,
        provided.text is None ==> merged(state, provided).text == state.text,
{
    assert(state.text.push('\n') =~= state.text + seq!['\n']);
}

/// Under each key stands what the provider says, and where it says nothing what stood
/// there before.
pub proof fn other_values_stay(state: Composed, provided: Provided, key: Seq<char>)
    ensures
        provided.values.contains_key(key) ==> merged(state, provided).values.contains_key(key) && merged(
            state,
            provided,
        ).values[key] == provided.values[key],
        !provided.values.contains_key(key) && state.values.contains_key(key) ==> merged(
            state,
            provided,
        ).values.contains_key(key) && merged(state, provided).values[key] == state.values[key],
        merged(state, provided).values.contains_key(key) ==> state.values.contains_key(key)
            || provided.values.contains_key(key),
        composed(Seq::empty()).text == Seq::<char>::empty(),
        composed(Seq::empty()).values == Map::<Seq<char>, Json>::empty(),
{
}

}
