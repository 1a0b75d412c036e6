//! Pipeline manifests and their registration with the server.
//!
//! A manifest declares pipelines, each with its chain of tasks. Registering a
//! manifest means posting every pipeline, and after each pipeline its tasks,
//! to the server. What is posted, where and in which order is decided here;
//! the sending is the caller's.

use vstd::prelude::*;
use vstd::string::StringExecFns;
use crate::models::{Pipeline, PipelineView, Task, TaskView};

verus! {

/// A declared task as a mathematical value.
pub struct ManifestTaskView {
    pub id: Seq<char>,
    pub command: Seq<char>,
}

/// A task as a manifest declares it, inside its pipeline.
#[derive(Debug)]
pub struct ManifestTask {
    pub id: String,
    pub command: String,
}

impl View for ManifestTask {
    type V = ManifestTaskView;

    open spec fn view(&self) -> ManifestTaskView {
        ManifestTaskView { id: self.id@, command: self.command@ }
    }
}

impl DeepView for ManifestTask {
    type V = ManifestTaskView;

    open spec fn deep_view(&self) -> ManifestTaskView {
        self@
    }
}

impl Default for ManifestTask {
    fn default() -> (empty: Self)
        ensures
            empty@ == (ManifestTaskView { id: Seq::empty(), command: Seq::empty() }),
    {
        ManifestTask { id: String::new(), command: String::new() }
    }
}

/// A declared pipeline as a mathematical value.
pub struct ManifestPipelineView {
    pub id: Seq<char>,
    pub schedule: Seq<char>,
    pub tasks: Seq<ManifestTaskView>,
}

/// A pipeline as a manifest declares it, with its chain of tasks in order.
#[derive(Debug)]
pub struct ManifestPipeline {
    pub id: String,
    pub schedule: String,
    pub tasks: Vec<ManifestTask>,
}

impl View for ManifestPipeline {
    type V = ManifestPipelineView;

    open spec fn view(&self) -> ManifestPipelineView {
        ManifestPipelineView {
            id: self.id@,
            schedule: self.schedule@,
            tasks: self.tasks.deep_view(),
        }
    }
}

impl DeepView for ManifestPipeline {
    type V = ManifestPipelineView;

    open spec fn deep_view(&self) -> ManifestPipelineView {
        self@
    }
}

impl Default for ManifestPipeline {
    fn default() -> (empty: Self)
        ensures
            empty@ == (ManifestPipelineView {
                id: Seq::empty(),
                schedule: Seq::empty(),
                tasks: Seq::empty(),
            }),
    {
        let empty = ManifestPipeline {
            id: String::new(),
            schedule: String::new(),
            tasks: Vec::new(),
        };
        assert(empty.tasks.deep_view() =~= Seq::<ManifestTaskView>::empty());
        empty
    }
}

/// A manifest as a mathematical value.
pub struct ManifestView {
    pub pipelines: Seq<ManifestPipelineView>,
}

/// The pipelines that a manifest file declares.
#[derive(Debug)]
pub struct Manifest {
    pub pipelines: Vec<ManifestPipeline>,
}

impl View for Manifest {
    type V = ManifestView;

    open spec fn view(&self) -> ManifestView {
        ManifestView { pipelines: self.pipelines.deep_view() }
    }
}

impl Default for Manifest {
    fn default() -> (empty: Self)
        ensures
            empty@ == (ManifestView { pipelines: Seq::empty() }),
    {
        let empty = Manifest { pipelines: Vec::new() };
        assert(empty.pipelines.deep_view() =~= Seq::<ManifestPipelineView>::empty());
        empty
    }
}

/// The body of a request as a mathematical value.
pub enum PayloadView {
    Pipeline(PipelineView),
    Task(TaskView),
}

/// What a registration request carries.
#[derive(Debug)]
pub enum Payload {
    Pipeline(Pipeline),
    Task(Task),
}

impl View for Payload {
    type V = PayloadView;

    open spec fn view(&self) -> PayloadView {
        match self {
            Payload::Pipeline(pipeline) => PayloadView::Pipeline(pipeline@),
            Payload::Task(task) => PayloadView::Task(task@),
        }
    }
}

/// A request as a mathematical value.
pub struct RequestView {
    pub url: Seq<char>,
    pub body: PayloadView,
}

/// One record to post to the server.
#[derive(Debug)]
pub struct Request {
    pub url: String,
    pub body: Payload,
}

impl View for Request {
    type V = RequestView;

    open spec fn view(&self) -> RequestView {
        RequestView { url: self.url@, body: self.body@ }
    }
}

impl DeepView for Request {
    type V = RequestView;

    open spec fn deep_view(&self) -> RequestView {
        self@
    }
}

/// The request that registers a declared pipeline with the server at `url`.
pub open spec fn pipeline_request(url: Seq<char>, pipeline: ManifestPipelineView) -> RequestView {
    RequestView {
        url: url + "/api/pipelines"@,
        body: PayloadView::Pipeline(PipelineView { id: pipeline.id, schedule: pipeline.schedule }),
    }
}

/// The request that registers a declared task as part of the pipeline
/// `pipeline_id`.
pub open spec fn task_request(
    url: Seq<char>,
    pipeline_id: Seq<char>,
    task: ManifestTaskView,
) -> RequestView {
    RequestView {
        url: url + "/api/tasks"@,
        body: PayloadView::Task(TaskView { id: task.id, pipeline_id, command: task.command }),
    }
}

/// The requests for one declared pipeline: the pipeline, then its tasks in
/// the order of the chain.
pub open spec fn requests_for(url: Seq<char>, pipeline: ManifestPipelineView) -> Seq<RequestView> {
    seq![pipeline_request(url, pipeline)] + Seq::new(
        pipeline.tasks.len(),
        |i: int| task_request(url, pipeline.id, pipeline.tasks[i]),
    )
}

/// The requests for a list of declared pipelines, pipeline after pipeline.
pub open spec fn requests(url: Seq<char>, pipelines: Seq<ManifestPipelineView>) -> Seq<RequestView>
    decreases pipelines.len(),
{
    if pipelines.len() == 0 {
        Seq::empty()
    } else {
        requests(url, pipelines.drop_last()) + requests_for(url, pipelines.last())
    }
}

fn endpoint(url: &str, path: &str) -> (address: String)
    ensures
        address@ == url@ + path@,
{
    let mut address = String::from_str(url);
    address.append(path);
    address
}

/// The requests that register a manifest with the server at `url`, in the
/// order in which they are to be sent: each pipeline goes to
/// `/api/pipelines`, followed by its tasks, which go to `/api/tasks` and
/// carry the id of their pipeline.
pub fn register(url: &str, manifest: &Manifest) -> (sends: Vec<Request>)
    ensures
        sends.deep_view() == requests(url@, manifest@.pipelines),
{
    let ghost declared = manifest@.pipelines;
    let mut sends: Vec<Request> = Vec::new();
    let mut i: usize = 0;
    assert(sends.deep_view() =~= Seq::<RequestView>::empty());
    while i < manifest.pipelines.len()
        invariant
            i <= manifest.pipelines.len(),
            declared == manifest.pipelines.deep_view(),
            declared.len() == manifest.pipelines.len(),
            sends.deep_view() == requests(url@, declared.take(i as int)),
        decreases manifest.pipelines.len() - i,
    {
        let pipeline = &manifest.pipelines[i];
        let ghost done = sends.deep_view();
        proof {
            assert(declared.take(i + 1).drop_last() =~= declared.take(i as int));
            assert(declared.take(i + 1).last() == pipeline@);
        }
        sends.push(
            Request {
                url: endpoint(url, "/api/pipelines"),
                body: Payload::Pipeline(
                    Pipeline { id: pipeline.id.clone(), schedule: pipeline.schedule.clone() },
                ),
            },
        );
        let mut j: usize = 0;
        assert(sends.deep_view() =~= done + requests_for(url@, pipeline@).take(1));
        while j < pipeline.tasks.len()
            invariant
                j <= pipeline.tasks.len(),
                pipeline@.tasks.len() == pipeline.tasks.len(),
                sends.deep_view() == done + requests_for(url@, pipeline@).take(1 + j),
            decreases pipeline.tasks.len() - j,
        {
            let task = &pipeline.tasks[j];
            let ghost sofar = sends.deep_view();
            sends.push(
                Request {
                    url: endpoint(url, "/api/tasks"),
                    body: Payload::Task(
                        Task {
                            id: task.id.clone(),
                            pipeline_id: pipeline.id.clone(),
                            command: task.command.clone(),
                        },
                    ),
                },
            );
            proof {
                let all = requests_for(url@, pipeline@);
                assert(pipeline@.tasks[j as int] == task@);
                assert(all[1 + j] == task_request(url@, pipeline@.id, task@));
                assert(sends.deep_view() =~= sofar.push(all[1 + j]));
                assert(all.take(2 + j) =~= all.take(1 + j).push(all[1 + j]));
                assert(sends.deep_view() =~= done + all.take(2 + j));
            }
            j += 1;
        }
        proof {
            let all = requests_for(url@, pipeline@);
            assert(all.take(1 + j) =~= all);
        }
        i += 1;
    }
    assert(declared.take(i as int) =~= declared);
    sends
}

} // verus!
