//! Long-running operations in the background: each has an identifier under which
//! its progress and its result can be asked for.

use vstd::prelude::*;
use vstd::string::*;

use crate::digest::{digest_prefix, digest_prefix_text, is_hex};
use crate::json::Json;
use crate::text::{decimal, push_decimal_wide, string_view};
use crate::text_map::{kept, TextMap};

verus! {

/// How far a task has come.
#[derive(Clone, Copy, Debug, PartialEq, Eq, Structural)]
pub enum TaskStatus {
    Running,
    Completed,
    Failed,
}

/// A percentage, as the bits of a double-precision number.
#[derive(Clone, Copy, Debug, PartialEq, Eq, Structural)]
pub struct Percent {
    pub bits: u64,
}

/// The bits of one hundred percent.
pub const FULL_PERCENT_BITS: u64 = 0x4059_0000_0000_0000;

/// What is known of a task. Times are in nanoseconds.
pub struct TaskInfo {
    pub task_id: String,
    pub tool_name: String,
    pub status: TaskStatus,
    pub progress: Option<Percent>,
    pub progress_message: Option<String>,
    pub result: Option<Json>,
    pub error: Option<String>,
    pub created_at: u64,
    pub completed_at: Option<u64>,
}

impl TaskInfo {
    /// How many seconds ago the task was created.
    pub fn elapsed_secs(&self, now: u64) -> (secs: u64)
        ensures
            secs as int == if now < self.created_at {
                0
            } else {
                (now - self.created_at) / 1_000_000_000
            },
    {
        if now < self.created_at {
            0
        } else {
            (now - self.created_at) / 1_000_000_000
        }
    }
}

/// The identifier of a task that a tool creates at a time.
pub open spec fn task_id_of(tool_name: Seq<char>, wall_nanos: u128) -> Seq<char> {
    digest_prefix(
        vstd::utf8::encode_utf8(tool_name + "-"@ + decimal(wall_nanos as nat)),
        4,
    )
}

/// The identifier of a task that a tool creates at a time since the epoch: eight
/// hexadecimal digits.
pub fn gen_task_id(tool_name: &str, wall_nanos: u128) -> (id: String)
    ensures
        id@ == task_id_of(tool_name@, wall_nanos),
        is_hex(id@, 8),
{
    let mut text = tool_name.to_owned();
    text.append("-");
    push_decimal_wide(&mut text, wall_nanos);
    digest_prefix_text(text.as_str().as_bytes(), 4)
}

/// Whether a task has just been created.
pub open spec fn is_new_task(
    task: TaskInfo,
    task_id: Seq<char>,
    tool_name: Seq<char>,
    now: u64,
) -> bool {
    &&& task.task_id@ == task_id
    &&& task.tool_name@ == tool_name
    &&& task.status is Running
    &&& task.progress is None
    &&& task.progress_message is None
    &&& task.result is None
    &&& task.error is None
    &&& task.created_at == now
    &&& task.completed_at is None
}

/// Whether a task is old enough to be forgotten: it is over, and has been for at
/// least `max_age`.
pub open spec fn is_old_task(task: TaskInfo, now: u64, max_age: u64) -> bool {
    !(task.status is Running) && (task.completed_at matches Some(at) && (if now < at {
        0
    } else {
        now - at
    }) >= max_age)
}

/// The tasks, by their identifiers.
pub struct TaskManager {
    tasks: TextMap<TaskInfo>,
}

impl TaskManager {
    /// The tasks, by their identifiers.
    pub closed spec fn view(self) -> Map<Seq<char>, TaskInfo> {
        self.tasks@
    }

    /// No tasks.
    pub fn new() -> (manager: Self)
        ensures
            manager@ == Map::<Seq<char>, TaskInfo>::empty(),
    {
        TaskManager { tasks: TextMap::new() }
    }

    /// Creates a running task, and returns its identifier. `wall_nanos` is the time
    /// since the epoch.
    pub fn create_task(&mut self, tool_name: &str, wall_nanos: u128, now: u64) -> (task_id: String)
        ensures
            task_id@ == task_id_of(tool_name@, wall_nanos),
            is_hex(task_id@, 8),
            final(self)@.contains_key(task_id@),
            is_new_task(final(self)@[task_id@], task_id@, tool_name@, now),
            final(self)@.remove(task_id@) == old(self)@.remove(task_id@),
    {
        let task_id = gen_task_id(tool_name, wall_nanos);
        let task = TaskInfo {
            task_id: task_id.clone(),
            tool_name: tool_name.to_owned(),
            status: TaskStatus::Running,
            progress: None,
            progress_message: None,
            result: None,
            error: None,
            created_at: now,
            completed_at: None,
        };
        self.tasks.insert(task_id.clone(), task);
        proof {
            assert(self@.remove(task_id@) =~= old(self)@.remove(task_id@));
        }
        task_id
    }

    /// Notes how far a task has come.
    pub fn update_progress(&mut self, task_id: &str, percent: Percent, message: &str)
        ensures
            old(self)@.contains_key(task_id@) ==> ({
                let before = old(self)@[task_id@];
                let after = final(self)@[task_id@];
                &&& final(self)@ == old(self)@.insert(task_id@, after)
                &&& after == (TaskInfo {
                    progress: Some(percent),
                    progress_message: after.progress_message,
                    ..before
                })
                &&& string_view(after.progress_message) == Some(message@)
            }),
            !old(self)@.contains_key(task_id@) ==> final(self)@ == old(self)@,
    {
        match self.tasks.remove(task_id) {
            Some(task) => {
                let updated = TaskInfo {
                    task_id: task.task_id,
                    tool_name: task.tool_name,
                    status: task.status,
                    progress: Some(percent),
                    progress_message: Some(message.to_owned()),
                    result: task.result,
                    error: task.error,
                    created_at: task.created_at,
                    completed_at: task.completed_at,
                };
                self.tasks.insert(task_id.to_owned(), updated);
                proof {
                    assert(self@ =~= old(self)@.insert(task_id@, updated));
                }
            },
            None => {
                proof {
                    assert(old(self)@.remove(task_id@) =~= old(self)@);
                }
            },
        }
    }

    /// Notes that a task is complete.
    pub fn complete_task(&mut self, task_id: &str, result: Json, now: u64)
        ensures
            old(self)@.contains_key(task_id@) ==> final(self)@ == old(self)@.insert(
                task_id@,
                (TaskInfo {
                    status: TaskStatus::Completed,
                    progress: Some(Percent { bits: FULL_PERCENT_BITS }),
                    result: Some(result),
                    completed_at: Some(now),
                    ..old(self)@[task_id@]
                }),
            ),
            !old(self)@.contains_key(task_id@) ==> final(self)@ == old(self)@,
    {
        match self.tasks.remove(task_id) {
            Some(task) => {
                let updated = TaskInfo {
                    task_id: task.task_id,
                    tool_name: task.tool_name,
                    status: TaskStatus::Completed,
                    progress: Some(Percent { bits: FULL_PERCENT_BITS }),
                    progress_message: task.progress_message,
                    result: Some(result),
                    error: task.error,
                    created_at: task.created_at,
                    completed_at: Some(now),
                };
                self.tasks.insert(task_id.to_owned(), updated);
                proof {
                    assert(self@ =~= old(self)@.insert(task_id@, updated));
                }
            },
            None => {
                proof {
                    assert(old(self)@.remove(task_id@) =~= old(self)@);
                }
            },
        }
    }

    /// Notes that a task has failed.
    pub fn fail_task(&mut self, task_id: &str, error: &str, now: u64)
        ensures
            old(self)@.contains_key(task_id@) ==> ({
                let before = old(self)@[task_id@];
                let after = final(self)@[task_id@];
                &&& final(self)@ == old(self)@.insert(task_id@, after)
                &&& after == (TaskInfo {
                    status: TaskStatus::Failed,
                    error: after.error,
                    completed_at: Some(now),
                    ..before
                })
                &&& string_view(after.error) == Some(error@)
            }),
            !old(self)@.contains_key(task_id@) ==> final(self)@ == old(self)@,
    {
        match self.tasks.remove(task_id) {
            Some(task) => {
                let updated = TaskInfo {
                    task_id: task.task_id,
                    tool_name: task.tool_name,
                    status: TaskStatus::Failed,
                    progress: task.progress,
                    progress_message: task.progress_message,
                    result: task.result,
                    error: Some(error.to_owned()),
                    created_at: task.created_at,
                    completed_at: Some(now),
                };
                self.tasks.insert(task_id.to_owned(), updated);
                proof {
                    assert(self@ =~= old(self)@.insert(task_id@, updated));
                }
            },
            None => {
                proof {
                    assert(old(self)@.remove(task_id@) =~= old(self)@);
                }
            },
        }
    }

    /// What is known of a task.
    pub fn get_task(&self, task_id: &str) -> (task: Option<&TaskInfo>)
        ensures
            match task {
                Some(t) => self@.contains_key(task_id@) && *t == self@[task_id@],
                None => !self@.contains_key(task_id@),
            },
    {
        self.tasks.get(task_id)
    }

    /// Forgets the tasks that have been over for at least `max_age`.
    pub fn prune_old_tasks(&mut self, max_age: u64, now: u64)
        ensures
            final(self)@ == kept(old(self)@, |task: TaskInfo| !is_old_task(task, now, max_age)),
    {
        let keep = |task: &TaskInfo| -> (stays: bool)
            ensures
                stays == !is_old_task(*task, now, max_age),
            {
                match task.status {
                    TaskStatus::Running => true,
                    _ => match task.completed_at {
                        Some(at) => {
                            let age: u64 = if now < at {
                                0
                            } else {
                                now - at
                            };
                            age < max_age
                        },
                        None => true,
                    },
                }
            };
        self.tasks.retain(keep, Ghost(|task: TaskInfo| !is_old_task(task, now, max_age)));
    }
}

/// Running tasks are never forgotten, whatever their age.
pub proof fn law_running_tasks_are_kept(
    tasks: Map<Seq<char>, TaskInfo>,
    task_id: Seq<char>,
    max_age: u64,
    now: u64,
)
    requires
        tasks.contains_key(task_id),
        tasks[task_id].status is Running,
    ensures
        kept(tasks, |task: TaskInfo| !is_old_task(task, now, max_age)).contains_key(task_id),
{
}

/// A task that is over is forgotten once it has been over for the given time, and not
/// before; what is kept is kept as it is.
pub proof fn law_finished_tasks_are_kept_for_a_while(
    tasks: Map<Seq<char>, TaskInfo>,
    task_id: Seq<char>,
    ended: u64,
    now: u64,
    max_age: u64,
)
    requires
        tasks.contains_key(task_id),
        !(tasks[task_id].status is Running),
        tasks[task_id].completed_at == Some(ended),
        ended <= now,
    ensures
        ({
            let left = kept(tasks, |task: TaskInfo| !is_old_task(task, now, max_age));
            &&& left.contains_key(task_id) <==> now < ended + max_age
            &&& left.contains_key(task_id) ==> left[task_id] == tasks[task_id]
        }),
{
}

/// A task that has just been created runs, under its identifier and for its tool, and has
/// come to nothing yet.
pub proof fn law_new_tasks_run(
    task: TaskInfo,
    task_id: Seq<char>,
    tool_name: Seq<char>,
    now: u64,
    max_age: u64,
    later: u64,
)
    requires
        is_new_task(task, task_id, tool_name, now),
    ensures
        task.status is Running,
        task.task_id@ == task_id,
        task.tool_name@ == tool_name,
        task.created_at == now,
        task.result is None,
        task.error is None,
        task.completed_at is None,
        task.progress is None,
        !is_old_task(task, later, max_age),
{
}

} // verus!
