//! Tasks that wait to be done.
use vstd::prelude::*;
use crate::actions::optional_text;
use crate::rewrite::signed_decimal;
use crate::rewrite::signed_decimal_of;
use crate::rewrite::texts;
use crate::string_map::in_order;
use crate::string_map::StringMap;
use crate::text::same_text;

verus! {

broadcast use vstd::seq_lib::group_seq_properties;

/// When a task was made and changed, as the task itself tells it.
pub struct TaskMetadata {
    pub updated_at: Option<i64>,
    pub created_at: Option<String>,
}

/// A task.
pub struct Task {
    pub id: Option<String>,
    pub name: String,
    pub tags: Option<Vec<String>>,
    pub metadata: Option<TaskMetadata>,
    pub created_at: Option<i64>,
    pub updated_at: Option<i64>,
}

/// When a task was made and changed, as the task itself tells it.
#[verifier::ext_equal]
pub struct Metadata {
    pub updated_at: Option<i64>,
    pub created_at: Option<Seq<char>>,
}

/// What a task says.
#[verifier::ext_equal]
pub struct TaskInfo {
    pub id: Option<Seq<char>>,
    pub name: Seq<char>,
    pub tags: Option<Seq<Seq<char>>>,
    pub metadata: Option<Metadata>,
    pub created_at: Option<i64>,
    pub updated_at: Option<i64>,
}

/// What optional tags are.
pub open spec fn tag_texts(tags: Option<Vec<String>>) -> Option<Seq<Seq<char>>> {
    match tags {
        Some(v) => Some(texts(v@)),
        None => None,
    }
}

impl View for TaskMetadata {
    type V = Metadata;

    open spec fn view(&self) -> Metadata {
        Metadata { updated_at: self.updated_at, created_at: optional_text(self.created_at) }
    }
}

impl View for Task {
    type V = TaskInfo;

    open spec fn view(&self) -> TaskInfo {
        TaskInfo {
            id: optional_text(self.id),
            name: self.name@,
            tags: tag_texts(self.tags),
            metadata: match self.metadata {
                Some(m) => Some(m@),
                None => None,
            },
            created_at: self.created_at,
            updated_at: self.updated_at,
        }
    }
}

/// What a map of tasks holds.
pub open spec fn task_entries(m: Map<Seq<char>, Task>) -> Map<Seq<char>, TaskInfo> {
    m.map_values(|t: Task| t@)
}

/// What a sequence of tasks says.
pub open spec fn task_infos(v: Seq<Task>) -> Seq<TaskInfo> {
    v.map_values(|t: Task| t@)
}

// ---------------------------------------------------------------------------
// Copies
// ---------------------------------------------------------------------------
/// The same texts again.
pub fn copy_texts(v: &Vec<String>) -> (r: Vec<String>)
    ensures
        texts(r@) == texts(v@),
{
    let mut r: Vec<String> = Vec::new();
    for i in 0..v.len()
        invariant
            texts(r@) == texts(v@).take(i as int),
    {
        let ghost before = r@;
        r.push(v[i].clone());
        assert(texts(r@) =~= texts(before).push(v@[i as int]@));
        assert(texts(v@).take(i + 1) =~= texts(v@).take(i as int).push(texts(v@)[i as int]));
    }
    assert(texts(v@).take(v@.len() as int) =~= texts(v@));
    r
}

/// The same optional text again.
pub fn copy_text(s: &Option<String>) -> (r: Option<String>)
    ensures
        optional_text(r) == optional_text(*s),
{
    match s {
        Some(t) => Some(t.clone()),
        None => None,
    }
}

impl Task {
    /// The same task again.
    pub fn copy(&self) -> (r: Task)
        ensures
            r@ == self@,
    {
        let tags = match &self.tags {
            Some(v) => Some(copy_texts(v)),
            None => None,
        };
        let metadata = match &self.metadata {
            Some(m) => Some(
                TaskMetadata { updated_at: m.updated_at, created_at: copy_text(&m.created_at) },
            ),
            None => None,
        };
        Task {
            id: copy_text(&self.id),
            name: self.name.clone(),
            tags,
            metadata,
            created_at: self.created_at,
            updated_at: self.updated_at,
        }
    }
}

// ---------------------------------------------------------------------------
// Making and finding tasks
// ---------------------------------------------------------------------------
/// A task as it is stored at the time `now`: one without an identifier gets
/// `fresh`, both its times are `now`, and the times that it tells itself are
/// filled in where they are missing.
pub open spec fn stamped(task: TaskInfo, now: i64, fresh: Seq<char>) -> TaskInfo {
    let told = task.metadata.unwrap_or(Metadata { updated_at: None, created_at: None });
    TaskInfo {
        id: Some(task.id.unwrap_or(fresh)),
        name: task.name,
        tags: task.tags,
        metadata: Some(
            Metadata {
                updated_at: Some(told.updated_at.unwrap_or(now)),
                created_at: Some(told.created_at.unwrap_or(signed_decimal(now as int))),
            },
        ),
        created_at: Some(now),
        updated_at: Some(now),
    }
}

/// A task as it is stored at the time `now`.
pub fn stamp_task(task: Task, now: i64, fresh: String) -> (r: Task)
    ensures
        r@ == stamped(task@, now, fresh@),
        r.id is Some,
{
    let id = match task.id {
        Some(i) => i,
        None => fresh,
    };
    let told = match task.metadata {
        Some(m) => m,
        None => TaskMetadata { updated_at: None, created_at: None },
    };
    let updated: i64 = match told.updated_at {
        Some(t) => t,
        None => now,
    };
    let created = match told.created_at {
        Some(t) => t,
        None => signed_decimal_of(now),
    };
    Task {
        id: Some(id),
        name: task.name,
        tags: task.tags,
        metadata: Some(TaskMetadata { updated_at: Some(updated), created_at: Some(created) }),
        created_at: Some(now),
        updated_at: Some(now),
    }
}

/// Every one of `few` is one of `many`.
pub open spec fn all_among(few: Seq<Seq<char>>, many: Seq<Seq<char>>) -> bool {
    forall|i: int| 0 <= i < few.len() ==> many.contains(#[trigger] few[i])
}

/// A task passes a filter: it has all the tags that are asked for. Without a
/// filter every task passes; one without tags passes none.
pub open spec fn has_tags(task: TaskInfo, wanted: Option<Seq<Seq<char>>>) -> bool {
    match wanted {
        Some(w) => match task.tags {
            Some(t) => all_among(w, t),
            None => false,
        },
        None => true,
    }
}

/// The tasks under `keys` that pass a filter.
pub open spec fn matching(tasks: Map<Seq<char>, TaskInfo>, keys: Seq<Seq<char>>, wanted: Option<Seq<Seq<char>>>) -> Seq<
    TaskInfo,
>
    decreases keys.len(),
{
    if keys.len() == 0 {
        Seq::empty()
    } else {
        let before = matching(tasks, keys.drop_last(), wanted);
        if has_tags(tasks[keys.last()], wanted) {
            before.push(tasks[keys.last()])
        } else {
            before
        }
    }
}

/// Whether `names` holds `name`.
fn holds_text(names: &Vec<String>, name: &str) -> (r: bool)
    ensures
        r == texts(names@).contains(name@),
{
    for i in 0..names.len()
        invariant
            forall|j: int| 0 <= j < i ==> #[trigger] texts(names@)[j] != name@,
    {
        assert(texts(names@)[i as int] == names@[i as int]@);
        if same_text(names[i].as_str(), name) {
            return true;
        }
    }
    false
}

/// Whether a task passes a filter.
pub fn check_tags(task: &Task, wanted: &Option<Vec<String>>) -> (r: bool)
    ensures
        r == has_tags(task@, tag_texts(*wanted)),
{
    match wanted {
        Some(w) => match &task.tags {
            Some(t) => {
                for i in 0..w.len()
                    invariant
                        task@.tags == Some(texts(t@)),
                        tag_texts(*wanted) == Some(texts(w@)),
                        forall|j: int|
                            0 <= j < i ==> texts(t@).contains(#[trigger] texts(w@)[j]),
                {
                    assert(texts(w@)[i as int] == w@[i as int]@);
                    if !holds_text(t, w[i].as_str()) {
                        assert(!all_among(texts(w@), texts(t@)));
                        return false;
                    }
                }
                true
            },
            None => false,
        },
        None => true,
    }
}

/// The tasks that pass a filter, in the order of their identifiers.
pub fn filter_tasks(tasks: &StringMap<Task>, wanted: &Option<Vec<String>>) -> (r: Vec<Task>)
    ensures
        task_infos(r@) == matching(
            task_entries(tasks@),
            in_order(tasks@.dom()),
            tag_texts(*wanted),
        ),
{
    let n: usize = tasks.len();
    let ghost keys = tasks.keys();
    let ghost entries = task_entries(tasks@);
    let mut r: Vec<Task> = Vec::new();
    assert(task_infos(r@) =~= Seq::empty());
    for i in 0..n
        invariant
            n == keys.len(),
            keys == tasks.keys(),
            entries == task_entries(tasks@),
            task_infos(r@) == matching(entries, keys.take(i as int), tag_texts(*wanted)),
    {
        let task = tasks.value_at(i);
        assert(entries[keys[i as int]] == task@);
        assert(keys.take(i + 1).drop_last() =~= keys.take(i as int));
        if check_tags(task, wanted) {
            let ghost before = r@;
            let same = task.copy();
            r.push(same);
            assert(task_infos(r@) =~= task_infos(before).push(same@));
        }
    }
    assert(keys.take(n as int) =~= keys);
    r
}

// ---------------------------------------------------------------------------
// Laws
// ---------------------------------------------------------------------------
/// Storing a task again changes nothing of it but the two times.
pub proof fn stamping_again_keeps(task: TaskInfo, now: i64, fresh: Seq<char>, later: i64, other: Seq<char>)
    ensures
        stamped(stamped(task, now, fresh), later, other) == (TaskInfo {
            created_at: Some(later),
            updated_at: Some(later),
            ..stamped(task, now, fresh)
        }),
{
}

/// A task is listed exactly where it is stored and passes the filter.
pub proof fn listed_iff_matching(
    tasks: Map<Seq<char>, TaskInfo>,
    keys: Seq<Seq<char>>,
    wanted: Option<Seq<Seq<char>>>,
    task: TaskInfo,
)
    ensures
        matching(tasks, keys, wanted).contains(task) <==> has_tags(task, wanted) && exists|i: int|
            0 <= i < keys.len() && tasks[#[trigger] keys[i]] == task,
    decreases keys.len(),
{
    if keys.len() > 0 {
        let rest = keys.drop_last();
        let before = matching(tasks, rest, wanted);
        let last = tasks[keys.last()];
        listed_iff_matching(tasks, rest, wanted, task);
        let now = matching(tasks, keys, wanted);
        if now.contains(task) {
            let k = choose|k: int| 0 <= k < now.len() && now[k] == task;
            if k < before.len() {
                assert(before[k] == task);
                let i = choose|i: int| 0 <= i < rest.len() && tasks[#[trigger] rest[i]] == task;
                assert(tasks[keys[i]] == task);
            } else {
                assert(tasks[keys[keys.len() - 1]] == task);
            }
        }
        if has_tags(task, wanted) && exists|i: int|
            0 <= i < keys.len() && tasks[#[trigger] keys[i]] == task {
            let i = choose|i: int| 0 <= i < keys.len() && tasks[#[trigger] keys[i]] == task;
            if i < rest.len() {
                assert(tasks[rest[i]] == task);
                let k = choose|k: int| 0 <= k < before.len() && before[k] == task;
                assert(now[k] == task);
            } else {
                assert(now.last() == task);
            }
        }
    }
}

/// A task that has more tags than asked for passes, and one that passes a filter
/// passes any part of it.
pub proof fn fewer_tags_pass(task: TaskInfo, wanted: Seq<Seq<char>>, fewer: Seq<Seq<char>>)
    requires
        has_tags(task, Some(wanted)),
        all_among(fewer, wanted),
    ensures
        has_tags(task, Some(fewer)),
{
    let tags = task.tags.unwrap();
    assert forall|i: int| 0 <= i < fewer.len() implies tags.contains(#[trigger] fewer[i]) by {
        assert(wanted.contains(fewer[i]));
        let j = choose|j: int| 0 <= j < wanted.len() && wanted[j] == fewer[i];
        assert(tags.contains(wanted[j]));
    }
}

/// A task is stored with all that it says of itself: its name, its tags and its
/// identifier, and the times that it tells; only where it tells none they are filled in.
/// Both its times are those of storing it.
pub proof fn stored_task_keeps_what_it_says(task: TaskInfo, now: i64, fresh: Seq<char>)
    ensures
        stamped(task, now, fresh).name == task.name,
        stamped(task, now, fresh).tags == task.tags,
        task.id is Some ==> stamped(task, now, fresh).id == task.id,
        task.id is None ==> stamped(task, now, fresh).id == Some(fresh),
        stamped(task, now, fresh).created_at == Some(now),
        stamped(task, now, fresh).updated_at == Some(now),
        stamped(task, now, fresh).metadata is Some,
        task.metadata matches Some(m) ==> {
            &&& m.updated_at is Some ==> stamped(task, now, fresh).metadata->Some_0.updated_at == m.updated_at
            &&& m.created_at is Some ==> stamped(task, now, fresh).metadata->Some_0.created_at == m.created_at
            &&& m.updated_at is None ==> stamped(task, now, fresh).metadata->Some_0.updated_at == Some(now)
            &&& m.created_at is None ==> stamped(task, now, fresh).metadata->Some_0.created_at == Some(
                signed_decimal(now as int),
            )
        },
        task.metadata is None ==> stamped(task, now, fresh).metadata->Some_0.updated_at == Some(now)
            && stamped(task, now, fresh).metadata->Some_0.created_at == Some(signed_decimal(now as int)),
{
}

/// A task passes where each tag that is asked for is one of its own; without a filter
/// every task passes, and with one no task that has no tags.
pub proof fn every_tag_is_asked_for(task: TaskInfo, tags: Seq<Seq<char>>, wanted: Seq<Seq<char>>)
    ensures
        has_tags(task, None),
        task.tags is None ==> !has_tags(task, Some(wanted)),
        task.tags == Some(tags) ==> (has_tags(task, Some(wanted)) <==> forall|i: int|
            0 <= i < wanted.len() ==> tags.contains(#[trigger] wanted[i])),
{
}

/// Tasks are listed in the order of their keys, each once: those of the first keys, then
/// those of the others.
pub proof fn tasks_are_listed_in_order(
    tasks: Map<Seq<char>, TaskInfo>,
    a: Seq<Seq<char>>,
    b: Seq<Seq<char>>,
    key: Seq<char>,
    wanted: Option<Seq<Seq<char>>>,
)
    ensures
        matching(tasks, a + b, wanted) == matching(tasks, a, wanted) + matching(tasks, b, wanted),
        matching(tasks, seq![key], wanted) == if has_tags(tasks[key], wanted) {
            seq![tasks[key]]
        } else {
            Seq::empty()
        },
        matching(tasks, Seq::empty(), wanted) == Seq::<TaskInfo>::empty(),
    decreases b.len(),
{
    reveal_with_fuel(matching, 2);
    assert(seq![key].drop_last() =~= Seq::<Seq<char>>::empty());
    assert(Seq::<TaskInfo>::empty().push(tasks[key]) =~= seq![tasks[key]]);
    if b.len() == 0 {
        assert(a + b =~= a);
        assert(matching(tasks, a, wanted) + matching(tasks, b, wanted) =~= matching(tasks, a, wanted));
    } else {
        assert((a + b).drop_last() =~= a + b.drop_last());
        assert((a + b).last() == b.last());
        tasks_are_listed_in_order(tasks, a, b.drop_last(), key, wanted);
        assert(matching(tasks, a + b, wanted) =~= matching(tasks, a, wanted) + matching(
            tasks,
            b,
            wanted,
        ));
    }
}

}
