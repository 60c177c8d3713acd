//! Who an agent is.
use vstd::prelude::*;
use crate::clock::UUID;
use crate::json::{copy_entries, JsonValue};
use crate::letters::eq_ignore_ascii_case;
use crate::letters::{ascii_lower, case_by_letters, same_but_ascii_case};
use crate::rewrite::{decimal_of, glue};
use crate::rewrite::{decimal, decimal_is_unique, glued, slices, texts};
use crate::settings::optional_entries;
use crate::string_map::StringMap;
use crate::supply::ask;
use crate::supply::{may_give, takes_all};
use crate::tasks::copy_texts;
use crate::text::chars_of;

verus! {

broadcast use vstd::seq_lib::group_seq_properties;

/// What is told of an agent.
pub enum Bio {
    Single(String),
    Multiple(Vec<String>),
}

/// An agent's character.
pub struct Character {
    pub id: Option<UUID>,
    pub name: String,
    pub bio: Bio,
    /// Settings that are kept secret.
    pub secrets: Option<StringMap<JsonValue>>,
    pub settings: Option<StringMap<JsonValue>>,
    /// The style of all that the agent writes.
    pub style_all: Option<Vec<String>>,
    pub advanced_planning: Option<bool>,
    pub advanced_memory: Option<bool>,
}

impl Default for Character {
    fn default() -> (r: Character)
        ensures
            r.id is None,
            r.name@ == Seq::<char>::empty(),
            r.bio matches Bio::Single(t) && t@ == Seq::<char>::empty(),
            r.secrets is None,
            r.settings is None,
            r.style_all is None,
            r.advanced_planning is None,
            r.advanced_memory is None,
    {
        Character {
            id: None,
            name: String::new(),
            bio: Bio::Single(String::new()),
            secrets: None,
            settings: None,
            style_all: None,
            advanced_planning: None,
            advanced_memory: None,
        }
    }
}

impl Bio {
    /// The same again.
    pub fn copy(&self) -> (r: Bio)
        ensures
            match *self {
                Bio::Single(t) => r matches Bio::Single(u) && u@ == t@,
                Bio::Multiple(v) => r matches Bio::Multiple(w) && texts(w@) == texts(v@),
            },
    {
        match self {
            Bio::Single(t) => Bio::Single(t.clone()),
            Bio::Multiple(v) => Bio::Multiple(copy_texts(v)),
        }
    }
}

impl Character {
    /// The same character again.
    pub fn copy(&self) -> (r: Character)
        ensures
            r.id == self.id,
            r.name@ == self.name@,
            match self.bio {
                Bio::Single(t) => r.bio matches Bio::Single(u) && u@ == t@,
                Bio::Multiple(v) => r.bio matches Bio::Multiple(w) && texts(w@) == texts(v@),
            },
            optional_entries(r.secrets) == optional_entries(self.secrets),
            optional_entries(r.settings) == optional_entries(self.settings),
            style_texts(r.style_all) == style_texts(self.style_all),
            r.advanced_planning == self.advanced_planning,
            r.advanced_memory == self.advanced_memory,
    {
        let id = match &self.id {
            Some(i) => Some(i.copy()),
            None => None,
        };
        let secrets = match &self.secrets {
            Some(m) => Some(copy_entries(m)),
            None => None,
        };
        let settings = match &self.settings {
            Some(m) => Some(copy_entries(m)),
            None => None,
        };
        let style_all = match &self.style_all {
            Some(v) => Some(copy_texts(v)),
            None => None,
        };
        Character {
            id,
            name: self.name.clone(),
            bio: self.bio.copy(),
            secrets,
            settings,
            style_all,
            advanced_planning: self.advanced_planning,
            advanced_memory: self.advanced_memory,
        }
    }
}

/// The name of the anonymous agent number `n`.
pub open spec fn anonymous_name(n: nat) -> Seq<char> {
    glued(seq!["Agent-"@, decimal(n)])
}

/// Anonymous agents with different numbers have different names.
pub proof fn anonymous_names_differ(a: nat, b: nat)
    requires
        a != b,
    ensures
        anonymous_name(a) != anonymous_name(b),
{
    if anonymous_name(a) == anonymous_name(b) {
        numeral_of_name(a);
        numeral_of_name(b);
        decimal_is_unique(a, b);
    }
}

proof fn numeral_of_name(n: nat)
    ensures
        anonymous_name(n).skip("Agent-"@.len() as int) == decimal(n),
{
    let parts = seq!["Agent-"@, decimal(n)];
    reveal_with_fuel(glued, 3);
    assert(parts.drop_last() =~= seq!["Agent-"@]);
    assert(seq!["Agent-"@].drop_last() =~= Seq::<Seq<char>>::empty());
    assert(anonymous_name(n) =~= "Agent-"@ + decimal(n));
    assert(anonymous_name(n).skip("Agent-"@.len() as int) =~= decimal(n));
}

/// The character of the anonymous agent number `n`.
pub fn anonymous_character(n: u64) -> (r: Character)
    ensures
        r.id is None,
        r.name@ == anonymous_name(n as nat),
        r.bio matches Bio::Single(t) && t@ == "An anonymous agent"@,
        r.secrets is None,
        r.settings is None,
        r.style_all is None,
        r.advanced_planning is None,
        r.advanced_memory is None,
{
    let number = decimal_of(n as u128);
    let parts: Vec<&str> = vec!["Agent-", number.as_str()];
    assert(slices(parts@) =~= seq!["Agent-"@, number@]);
    let mut c = Character::default();
    c.name = glue(&parts);
    c.bio = Bio::Single("An anonymous agent".to_owned());
    c
}

/// A feature is switched on: by its flag, and where there is none by its name
/// among the styles, in any case.
pub open spec fn feature_on(flag: Option<bool>, styles: Option<Seq<Seq<char>>>, name: Seq<char>) -> bool {
    match flag {
        Some(b) => b,
        None => match styles {
            Some(s) => has_style(s, name),
            None => false,
        },
    }
}

/// A name is among the styles, in any case.
pub open spec fn has_style(styles: Seq<Seq<char>>, name: Seq<char>) -> bool {
    exists|i: int| 0 <= i < styles.len() && same_but_ascii_case(#[trigger] styles[i], name)
}

/// What optional styles are.
pub open spec fn style_texts(styles: Option<Vec<String>>) -> Option<Seq<Seq<char>>> {
    match styles {
        Some(v) => Some(texts(v@)),
        None => None,
    }
}

/// Whether a name is among the styles, in any case.
fn check_style(styles: &Vec<String>, name: &str) -> (r: bool)
    ensures
        r == has_style(texts(styles@), name@),
{
    let wanted = chars_of(name);
    for i in 0..styles.len()
        invariant
            wanted@ == name@,
            forall|j: int|
                0 <= j < i ==> !same_but_ascii_case(#[trigger] texts(styles@)[j], name@),
    {
        assert(texts(styles@)[i as int] == styles@[i as int]@);
        let there = chars_of(styles[i].as_str());
        if eq_ignore_ascii_case(there.as_slice(), wanted.as_slice()) {
            return true;
        }
    }
    false
}

/// Whether a feature is switched on.
pub fn is_feature_on(flag: Option<bool>, styles: &Option<Vec<String>>, name: &str) -> (r: bool)
    ensures
        r == feature_on(flag, style_texts(*styles), name@),
{
    match flag {
        Some(b) => b,
        None => match styles {
            Some(v) => check_style(v, name),
            None => false,
        },
    }
}

/// `id` is an identifier that an agent may have: that of its character, else the
/// one it was given, else one that `id_of_name` may give for its name.
pub open spec fn may_be_agent_id<F: Fn(&String) -> String>(
    character: Character,
    given: Option<UUID>,
    id_of_name: F,
    id: Seq<char>,
) -> bool {
    match character.id {
        Some(i) => id == i@,
        None => match given {
            Some(g) => id == g@,
            None => may_give(id_of_name, character.name@, id),
        },
    }
}

/// The identifier of an agent.
pub fn choose_agent_id<F: Fn(&String) -> String>(character: &Character, given: Option<UUID>, id_of_name: &F) -> (r: UUID)
    requires
        takes_all(*id_of_name),
    ensures
        may_be_agent_id(*character, given, *id_of_name, r@),
{
    match &character.id {
        Some(i) => i.copy(),
        None => match given {
            Some(g) => g,
            None => {
                let value = ask(id_of_name, &character.name);
                assert(may_give(*id_of_name, character.name@, value@));
                UUID { value }
            },
        },
    }
}

// ---------------------------------------------------------------------------
// Laws
// ---------------------------------------------------------------------------
/// A flag decides by itself. Where there is none, the name of the feature decides, if it
/// stands among the styles, at whatever place and in whatever case.
pub proof fn flag_goes_before_styles(styles: Option<Seq<Seq<char>>>, name: Seq<char>, on: bool)
    ensures
        feature_on(Some(on), styles, name) == on,
        feature_on(None, None, name) == false,
        styles matches Some(s) ==> (feature_on(None, styles, name) <==> exists|i: int|
            0 <= i < s.len() && (#[trigger] s[i]).len() == name.len() && forall|k: int|
                0 <= k < name.len() ==> ascii_lower(s[i][k]) == ascii_lower(#[trigger] name[k])),
{
    if styles is Some {
        let s = styles->Some_0;
        if feature_on(None, styles, name) {
            let i = choose|i: int| 0 <= i < s.len() && same_but_ascii_case(#[trigger] s[i], name);
            case_by_letters(s[i], name);
        }
        if exists|i: int|
            0 <= i < s.len() && (#[trigger] s[i]).len() == name.len() && forall|k: int|
                0 <= k < name.len() ==> ascii_lower(s[i][k]) == ascii_lower(#[trigger] name[k]) {
            let i = choose|i: int|
                0 <= i < s.len() && (#[trigger] s[i]).len() == name.len() && forall|k: int|
                    0 <= k < name.len() ==> ascii_lower(s[i][k]) == ascii_lower(#[trigger] name[k]);
            case_by_letters(s[i], name);
        }
    }
}

/// An agent has the identifier of its character, else the one it was given, else one
/// made from its name.
pub proof fn own_identifier_goes_first<F: Fn(&String) -> String>(
    character: Character,
    given: Option<UUID>,
    id_of_name: F,
    id: Seq<char>,
)
    requires
        may_be_agent_id(character, given, id_of_name, id),
    ensures
        character.id matches Some(own) ==> id == own.value@,
        character.id is None ==> (given matches Some(g) ==> id == g.value@),
        character.id is None && given is None ==> may_give(id_of_name, character.name@, id),
{
}

/// An anonymous agent is called after its number.
pub proof fn anonymous_name_tells_number(n: nat)
    ensures
        anonymous_name(n) == "Agent-"@ + decimal(n),
{
    let parts = seq!["Agent-"@, decimal(n)];
    reveal_with_fuel(glued, 3);
    assert(parts.drop_last() =~= seq!["Agent-"@]);
    assert(seq!["Agent-"@].drop_last() =~= Seq::<Seq<char>>::empty());
    assert(anonymous_name(n) =~= "Agent-"@ + decimal(n));
}

}
