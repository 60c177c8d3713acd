//! Runs of an agent, what is kept of them, and the tasks that wait.
use vstd::prelude::*;
use crate::clock::{chrono_timestamp, UUID};
use crate::clock::{is_random_text, may_be_now};
use crate::runtime::AgentRuntime;
use crate::tasks::{filter_tasks, stamp_task, Task};
use crate::tasks::{has_tags, listed_iff_matching, matching, stamped, tag_texts, task_entries, task_infos};
use crate::tasks::TaskInfo;
use crate::trajectory::TrajectoryLogs;
use crate::string_map::{in_order, order_exists};

verus! {

broadcast use vstd::seq_lib::group_seq_properties;

// ---------------------------------------------------------------------------
// Runs
// ---------------------------------------------------------------------------
/// The same optional identifier again.
fn copy_id(id: Option<&UUID>) -> (r: Option<UUID>)
    ensures
        r == optional_id(id),
{
    match id {
        Some(i) => Some(i.copy()),
        None => None,
    }
}

/// What an optional reference to an identifier stands for.
pub open spec fn optional_id(id: Option<&UUID>) -> Option<UUID> {
    match id {
        Some(i) => Some(*i),
        None => None,
    }
}

impl AgentRuntime {
    /// The runtime with the run `run_id` for a room.
    pub open spec fn in_run(self, run_id: UUID, room_id: Option<UUID>) -> AgentRuntime {
        AgentRuntime { current_run_id: Some(run_id), current_room_id: room_id, ..self }
    }

    /// The runtime without a run.
    pub open spec fn without_run(self) -> AgentRuntime {
        AgentRuntime { current_run_id: None, current_room_id: None, ..self }
    }

    /// `id` is what the runtime may say of its run, and `after` is the runtime then:
    /// where there is no run, one is started.
    pub open spec fn may_tell_run(self, after: AgentRuntime, id: UUID) -> bool {
        match self.current_run_id {
            Some(i) => id == i && after == self,
            None => is_random_text(id@) && after == (AgentRuntime {
                current_run_id: Some(id),
                ..self
            }),
        }
    }

    /// Starts the run `run_id` for a room.
    pub fn start_run_as(&mut self, run_id: UUID, room_id: Option<&UUID>)
        ensures
            *final(self) == old(self).in_run(run_id, optional_id(room_id)),
    {
        self.current_run_id = Some(run_id);
        self.current_room_id = copy_id(room_id);
    }

    /// Starts a run for a room, with an identifier made by chance.
    pub fn start_run(&mut self, room_id: Option<&UUID>) -> (r: UUID)
        ensures
            is_random_text(r@),
            *final(self) == old(self).in_run(r, optional_id(room_id)),
    {
        let run_id = UUID::new_v4();
        self.start_run_as(run_id.copy(), room_id);
        run_id
    }

    /// Ends the run.
    pub fn end_run(&mut self)
        ensures
            *final(self) == old(self).without_run(),
    {
        self.current_run_id = None;
        self.current_room_id = None;
    }

    /// The identifier of the run. Where there is no run, one is started, with an
    /// identifier made by chance.
    pub fn get_current_run_id(&mut self) -> (r: UUID)
        ensures
            old(self).may_tell_run(*final(self), r),
    {
        if let Some(id) = &self.current_run_id {
            return id.copy();
        }
        let id = UUID::new_v4();
        self.current_run_id = Some(id.copy());
        id
    }

    /// The room of the run.
    pub fn get_current_room_id(&self) -> (r: Option<UUID>)
        ensures
            r == self.current_room_id,
    {
        match &self.current_room_id {
            Some(id) => Some(id.copy()),
            None => None,
        }
    }

    /// Sets the step under which is kept what happens.
    pub fn set_trajectory_step_id(&mut self, step_id: Option<String>)
        ensures
            *final(self) == (AgentRuntime { current_trajectory_step_id: step_id, ..*old(self) }),
    {
        self.current_trajectory_step_id = step_id;
    }

    /// The step under which is kept what happens.
    pub fn get_trajectory_step_id(&self) -> (r: Option<String>)
        ensures
            r == self.current_trajectory_step_id,
    {
        match &self.current_trajectory_step_id {
            Some(id) => Some(id.clone()),
            None => None,
        }
    }

    /// What is kept so far.
    pub fn get_trajectory_logs(&self) -> (r: TrajectoryLogs)
        ensures
            r@ == self.trajectory_logs@,
    {
        self.trajectory_logs.copy()
    }
}

// ---------------------------------------------------------------------------
// Tasks
// ---------------------------------------------------------------------------
impl AgentRuntime {
    /// The tasks that are stored, by their identifiers.
    pub open spec fn stored_tasks(self) -> Map<Seq<char>, TaskInfo> {
        task_entries(self.tasks@)
    }

    /// `after` is the runtime in which a task is stored under its identifier.
    pub open spec fn has_stored(self, after: AgentRuntime, task: TaskInfo) -> bool {
        &&& task.id matches Some(id) && after.stored_tasks().contains_key(id)
            && after.stored_tasks()[id] == task
        &&& self.keeps_tasks_but(after, task.id->Some_0)
    }

    /// `after` is the runtime without the task under an identifier.
    pub open spec fn has_dropped(self, after: AgentRuntime, id: Seq<char>) -> bool {
        &&& !after.stored_tasks().contains_key(id)
        &&& self.keeps_tasks_but(after, id)
    }

    /// `after` is the runtime in which at most the task under an identifier is another.
    pub open spec fn keeps_tasks_but(self, after: AgentRuntime, id: Seq<char>) -> bool {
        &&& forall|other: Seq<char>|
            other != id ==> (#[trigger] after.stored_tasks().contains_key(other)
                <==> self.stored_tasks().contains_key(other))
        &&& forall|other: Seq<char>|
            other != id && #[trigger] after.stored_tasks().contains_key(other)
                ==> after.stored_tasks()[other] == self.stored_tasks()[other]
        &&& after == (AgentRuntime { tasks: after.tasks, ..self })
    }

    /// Stores a task at the time `now`, under its identifier, or under `fresh`
    /// where it has none.
    pub fn create_task_at(&mut self, task: Task, now: i64, fresh: String) -> (r: Task)
        ensures
            r@ == stamped(task@, now, fresh@),
            final(self).stored_tasks() == old(self).stored_tasks().insert(r@.id->Some_0, r@),
            *final(self) == (AgentRuntime { tasks: final(self).tasks, ..*old(self) }),
            old(self).has_stored(*final(self), r@),
    {
        let stored = stamp_task(task, now, fresh);
        let r = stored.copy();
        let key = match &stored.id {
            Some(id) => id.clone(),
            None => String::new(),
        };
        let ghost before = self.tasks@;
        self.tasks.insert(key, stored);
        assert(task_entries(self.tasks@) =~= task_entries(before).insert(r@.id->Some_0, r@));
        r
    }

    /// Stores a task. One without an identifier gets one made by chance. Nothing is
    /// stored where the clock stands before 1970.
    pub fn create_task(&mut self, task: Task) -> (r: Option<Task>)
        ensures
            match r {
                Some(t) => {
                    &&& exists|now: i64, fresh: Seq<char>|
                        may_be_now(Some(now)) && is_random_text(fresh) && t@ == #[trigger] stamped(
                            task@,
                            now,
                            fresh,
                        )
                    &&& final(self).stored_tasks() == old(self).stored_tasks().insert(
                        t@.id->Some_0,
                        t@,
                    )
                    &&& *final(self) == (AgentRuntime { tasks: final(self).tasks, ..*old(self) })
                },
                None => may_be_now(None) && *final(self) == *old(self),
            },
            r matches Some(t) ==> old(self).has_stored(*final(self), t@),
    {
        match chrono_timestamp() {
            Some(now) => {
                let fresh = UUID::new_v4();
                let ghost id = fresh@;
                let r = self.create_task_at(task, now, fresh.value);
                assert(r@ == stamped(task@, now, id));
                Some(r)
            },
            None => None,
        }
    }

    /// The task that is stored under an identifier.
    pub fn get_task(&self, task_id: &str) -> (r: Option<Task>)
        ensures
            match r {
                Some(t) => self.stored_tasks().contains_key(task_id@) && t@
                    == self.stored_tasks()[task_id@],
                None => !self.stored_tasks().contains_key(task_id@),
            },
    {
        match self.tasks.get(task_id) {
            Some(t) => Some(t.copy()),
            None => None,
        }
    }

    /// The tasks that have all the given tags, in the order of their identifiers;
    /// without tags, all tasks.
    pub fn get_tasks(&self, tags: &Option<Vec<String>>) -> (r: Vec<Task>)
        ensures
            task_infos(r@) == matching(
                self.stored_tasks(),
                in_order(self.stored_tasks().dom()),
                tag_texts(*tags),
            ),
    {
        assert(task_entries(self.tasks@).dom() =~= self.tasks@.dom());
        filter_tasks(&self.tasks, tags)
    }

    /// Takes a task away. The result says whether there was one.
    pub fn delete_task(&mut self, task_id: &str) -> (r: bool)
        ensures
            r == old(self).stored_tasks().contains_key(task_id@),
            final(self).stored_tasks() == old(self).stored_tasks().remove(task_id@),
            *final(self) == (AgentRuntime { tasks: final(self).tasks, ..*old(self) }),
            old(self).has_dropped(*final(self), task_id@),
    {
        let ghost before = self.tasks@;
        let removed = self.tasks.remove(task_id).is_some();
        assert(task_entries(self.tasks@) =~= task_entries(before).remove(task_id@));
        removed
    }
}

// ---------------------------------------------------------------------------
// Laws
// ---------------------------------------------------------------------------
/// A run that was started is the one that is told, for the room it was started for,
/// until it ends.
pub proof fn started_run_is_told(before: AgentRuntime, run_id: UUID, room_id: Option<UUID>, after: AgentRuntime, told: UUID)
    requires
        before.in_run(run_id, room_id).may_tell_run(after, told),
    ensures
        told == run_id,
        after.current_room_id == room_id,
        after == before.in_run(run_id, room_id),
{
}

/// Once a run was told, the same one is told again.
pub proof fn run_is_told_again(
    before: AgentRuntime,
    between: AgentRuntime,
    after: AgentRuntime,
    first: UUID,
    second: UUID,
)
    requires
        before.may_tell_run(between, first),
        between.may_tell_run(after, second),
    ensures
        first == second,
        between == after,
{
}

/// When a run ends, nothing of it is left: the runtime is as if it had never been
/// started, and the next run that is told is a new one.
pub proof fn ended_run_is_gone(before: AgentRuntime, run_id: UUID, room_id: Option<UUID>)
    ensures
        before.in_run(run_id, room_id).without_run() == before.without_run(),
        before.without_run().without_run() == before.without_run(),
{
}

/// A task that was stored is listed for the tags it has, and for no others.
pub proof fn stored_task_is_listed(
    tasks: Map<Seq<char>, TaskInfo>,
    id: Seq<char>,
    task: TaskInfo,
    wanted: Option<Seq<Seq<char>>>,
)
    requires
        tasks.dom().finite(),
    ensures
        matching(tasks.insert(id, task), in_order(tasks.insert(id, task).dom()), wanted).contains(task)
            <==> has_tags(task, wanted),
{
    let all = tasks.insert(id, task);
    let keys = in_order(all.dom());
    order_exists(all.dom());
    listed_iff_matching(all, keys, wanted, task);
    assert(keys.contains(id));
    let i = choose|i: int| 0 <= i < keys.len() && keys[i] == id;
    assert(all[keys[i]] == task);
}

/// Only stored tasks are listed, so a task that was taken away is not, unless the
/// same is stored under another identifier.
pub proof fn deleted_task_is_not_listed(
    tasks: Map<Seq<char>, TaskInfo>,
    id: Seq<char>,
    task: TaskInfo,
    wanted: Option<Seq<Seq<char>>>,
)
    requires
        tasks.dom().finite(),
        forall|other: Seq<char>|
            other != id && #[trigger] tasks.contains_key(other) ==> tasks[other] != task,
    ensures
        !matching(tasks.remove(id), in_order(tasks.remove(id).dom()), wanted).contains(task),
{
    let left = tasks.remove(id);
    let keys = in_order(left.dom());
    order_exists(left.dom());
    listed_iff_matching(left, keys, wanted, task);
    assert forall|i: int| 0 <= i < keys.len() implies left[#[trigger] keys[i]] != task by {
        assert(keys.contains(keys[i]));
        assert(left.contains_key(keys[i]));
        assert(tasks.contains_key(keys[i]));
    }
}

/// Starting and ending a run change nothing of the runtime but its run and its room, and
/// telling it changes nothing where there is one.
pub proof fn runs_change_nothing_else(runtime: AgentRuntime, run_id: UUID, room_id: Option<UUID>, after: AgentRuntime, told: UUID)
    ensures
        runtime.in_run(run_id, room_id) == (AgentRuntime {
            current_run_id: Some(run_id),
            current_room_id: room_id,
            ..runtime
        }),
        runtime.without_run() == (AgentRuntime { current_run_id: None, current_room_id: None, ..runtime }),
        runtime.may_tell_run(after, told) && runtime.current_run_id is Some ==> after == runtime
            && runtime.current_run_id == Some(told),
        runtime.may_tell_run(after, told) && runtime.current_run_id is None ==> is_random_text(told@) && after
            == (AgentRuntime { current_run_id: Some(told), ..runtime }),
{
}

/// A task that was stored is the one under its identifier, and every other task is as it
/// was; once it is taken away, it is gone, and the others are still as they were.
pub proof fn storing_and_taking_away(
    before: AgentRuntime,
    between: AgentRuntime,
    after: AgentRuntime,
    task: TaskInfo,
    id: Seq<char>,
)
    requires
        task.id == Some(id),
        before.has_stored(between, task),
        between.has_dropped(after, id),
    ensures
        between.stored_tasks() == before.stored_tasks().insert(id, task),
        after.stored_tasks() == before.stored_tasks().remove(id),
        !before.stored_tasks().contains_key(id) ==> after.stored_tasks() == before.stored_tasks(),
        after == (AgentRuntime { tasks: after.tasks, ..before }),
{
    assert(between.stored_tasks() =~= before.stored_tasks().insert(id, task));
    assert(after.stored_tasks() =~= before.stored_tasks().remove(id));
    if !before.stored_tasks().contains_key(id) {
        assert(after.stored_tasks() =~= before.stored_tasks());
    }
}

}
