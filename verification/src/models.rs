//! The records that the scheduler reads from and writes to the store, and the
//! shapes in which they are declared and reported.
//!
//! Each record has a view: the same record with its texts as sequences of
//! characters. Contracts speak of views.

use vstd::prelude::*;
use vstd::std_specs::cmp::PartialEqSpecImpl;

verus! {

/// A pipeline as a mathematical value.
pub struct PipelineView {
    pub id: Seq<char>,
    pub schedule: Seq<char>,
}

/// A named, independently scheduled unit of work.
#[derive(Debug)]
pub struct Pipeline {
    /// Unique among pipelines.
    pub id: String,
    /// A five-field cron expression.
    pub schedule: String,
}

impl View for Pipeline {
    type V = PipelineView;

    open spec fn view(&self) -> PipelineView {
        PipelineView { id: self.id@, schedule: self.schedule@ }
    }
}

impl DeepView for Pipeline {
    type V = PipelineView;

    open spec fn deep_view(&self) -> PipelineView {
        self@
    }
}

impl Clone for Pipeline {
    fn clone(&self) -> (copy: Self)
        ensures
            copy@ == self@,
    {
        Pipeline { id: self.id.clone(), schedule: self.schedule.clone() }
    }
}

impl PartialEq for Pipeline {
    fn eq(&self, other: &Self) -> (equal: bool) {
        self.id == other.id && self.schedule == other.schedule
    }
}

impl PartialEqSpecImpl for Pipeline {
    open spec fn obeys_eq_spec() -> bool {
        true
    }

    open spec fn eq_spec(&self, other: &Self) -> bool {
        self.id@ == other.id@ && self.schedule@ == other.schedule@
    }
}

impl Default for Pipeline {
    fn default() -> (empty: Self)
        ensures
            empty@ == (PipelineView { id: Seq::empty(), schedule: Seq::empty() }),
    {
        Pipeline { id: String::new(), schedule: String::new() }
    }
}

/// A task as a mathematical value.
pub struct TaskView {
    pub id: Seq<char>,
    pub pipeline_id: Seq<char>,
    pub command: Seq<char>,
}

/// A single shell command belonging to a pipeline.
#[derive(Debug)]
pub struct Task {
    /// Unique among tasks.
    pub id: String,
    /// The pipeline to whose chain the task belongs.
    pub pipeline_id: String,
    /// Handed to the system shell as it stands.
    pub command: String,
}

impl View for Task {
    type V = TaskView;

    open spec fn view(&self) -> TaskView {
        TaskView { id: self.id@, pipeline_id: self.pipeline_id@, command: self.command@ }
    }
}

impl DeepView for Task {
    type V = TaskView;

    open spec fn deep_view(&self) -> TaskView {
        self@
    }
}

impl Clone for Task {
    fn clone(&self) -> (copy: Self)
        ensures
            copy@ == self@,
    {
        Task {
            id: self.id.clone(),
            pipeline_id: self.pipeline_id.clone(),
            command: self.command.clone(),
        }
    }
}

impl PartialEq for Task {
    fn eq(&self, other: &Self) -> (equal: bool) {
        self.id == other.id && self.pipeline_id == other.pipeline_id && self.command
            == other.command
    }
}

impl PartialEqSpecImpl for Task {
    open spec fn obeys_eq_spec() -> bool {
        true
    }

    open spec fn eq_spec(&self, other: &Self) -> bool {
        self.id@ == other.id@ && self.pipeline_id@ == other.pipeline_id@ && self.command@
            == other.command@
    }
}

impl Default for Task {
    fn default() -> (empty: Self)
        ensures
            empty@ == (TaskView {
                id: Seq::empty(),
                pipeline_id: Seq::empty(),
                command: Seq::empty(),
            }),
    {
        Task { id: String::new(), pipeline_id: String::new(), command: String::new() }
    }
}

/// An execution record as a mathematical value.
pub struct TaskInstanceView {
    pub id: Seq<char>,
    pub task_id: Seq<char>,
    pub pipeline_id: Seq<char>,
    pub scheduled_time: Seq<char>,
    pub execution_start: Seq<char>,
    pub execution_end: Seq<char>,
    pub status: Seq<char>,
    pub logs: Seq<char>,
    pub created_at: Seq<char>,
}

/// The immutable record of one executed attempt of a task, in the textual
/// form in which the store keeps it.
#[derive(Debug)]
pub struct TaskInstance {
    pub id: String,
    pub task_id: String,
    pub pipeline_id: String,
    pub scheduled_time: String,
    pub execution_start: String,
    pub execution_end: String,
    pub status: String,
    pub logs: String,
    pub created_at: String,
}

impl View for TaskInstance {
    type V = TaskInstanceView;

    open spec fn view(&self) -> TaskInstanceView {
        TaskInstanceView {
            id: self.id@,
            task_id: self.task_id@,
            pipeline_id: self.pipeline_id@,
            scheduled_time: self.scheduled_time@,
            execution_start: self.execution_start@,
            execution_end: self.execution_end@,
            status: self.status@,
            logs: self.logs@,
            created_at: self.created_at@,
        }
    }
}

impl DeepView for TaskInstance {
    type V = TaskInstanceView;

    open spec fn deep_view(&self) -> TaskInstanceView {
        self@
    }
}

impl Clone for TaskInstance {
    fn clone(&self) -> (copy: Self)
        ensures
            copy@ == self@,
    {
        TaskInstance {
            id: self.id.clone(),
            task_id: self.task_id.clone(),
            pipeline_id: self.pipeline_id.clone(),
            scheduled_time: self.scheduled_time.clone(),
            execution_start: self.execution_start.clone(),
            execution_end: self.execution_end.clone(),
            status: self.status.clone(),
            logs: self.logs.clone(),
            created_at: self.created_at.clone(),
        }
    }
}

impl PartialEq for TaskInstance {
    fn eq(&self, other: &Self) -> (equal: bool) {
        self.id == other.id && self.task_id == other.task_id && self.pipeline_id
            == other.pipeline_id && self.scheduled_time == other.scheduled_time
            && self.execution_start == other.execution_start && self.execution_end
            == other.execution_end && self.status == other.status && self.logs == other.logs
            && self.created_at == other.created_at
    }
}

impl PartialEqSpecImpl for TaskInstance {
    open spec fn obeys_eq_spec() -> bool {
        true
    }

    open spec fn eq_spec(&self, other: &Self) -> bool {
        self.id@ == other.id@ && self.task_id@ == other.task_id@ && self.pipeline_id@
            == other.pipeline_id@ && self.scheduled_time@ == other.scheduled_time@
            && self.execution_start@ == other.execution_start@ && self.execution_end@
            == other.execution_end@ && self.status@ == other.status@ && self.logs@ == other.logs@
            && self.created_at@ == other.created_at@
    }
}

impl Default for TaskInstance {
    fn default() -> (empty: Self)
        ensures
            empty@ == (TaskInstanceView {
                id: Seq::empty(),
                task_id: Seq::empty(),
                pipeline_id: Seq::empty(),
                scheduled_time: Seq::empty(),
                execution_start: Seq::empty(),
                execution_end: Seq::empty(),
                status: Seq::empty(),
                logs: Seq::empty(),
                created_at: Seq::empty(),
            }),
    {
        TaskInstance {
            id: String::new(),
            task_id: String::new(),
            pipeline_id: String::new(),
            scheduled_time: String::new(),
            execution_start: String::new(),
            execution_end: String::new(),
            status: String::new(),
            logs: String::new(),
            created_at: String::new(),
        }
    }
}

} // verus!
