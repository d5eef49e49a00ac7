//! Records of pipelines and jobs, shaped from the data that the CI provider's
//! API returns, and the order in which jobs are listed.
use vstd::prelude::*;
use crate::text::{chars_of, string_of};
use vstd::string::*;

verus! {

/// State of a job.
#[derive(Clone, Copy, Debug, PartialEq, Eq, Structural)]
pub enum CiJobStatus {
    Canceled,
    Created,
    Failed,
    Manual,
    Pending,
    Preparing,
    Running,
    Scheduled,
    Skipped,
    Success,
    WaitingForResource,
    Other,
}

/// State of a pipeline.
#[derive(Clone, Copy, Debug, PartialEq, Eq, Structural)]
pub enum PipelineStatus {
    Canceled,
    Created,
    Failed,
    Manual,
    Pending,
    Preparing,
    Running,
    Scheduled,
    Skipped,
    Success,
    WaitingForResource,
    Other,
}

/// Colour of a status cell.
#[derive(Clone, Copy, Debug, PartialEq, Eq, Structural)]
pub enum Tint {
    Plain,
    Green,
    Red,
    Yellow,
}

impl PipelineStatus {
    /// Success is green, failure red, the rest plain.
    pub fn tint(&self) -> (r: Tint)
        ensures
            r == match *self {
                PipelineStatus::Success => Tint::Green,
                PipelineStatus::Failed => Tint::Red,
                _ => Tint::Plain,
            },
    {
        match self {
            PipelineStatus::Success => Tint::Green,
            PipelineStatus::Failed => Tint::Red,
            _ => Tint::Plain,
        }
    }
}

impl CiJobStatus {
    /// Success is green, failure red, a running job yellow, the rest plain.
    pub fn tint(&self) -> (r: Tint)
        ensures
            r == match *self {
                CiJobStatus::Success => Tint::Green,
                CiJobStatus::Failed => Tint::Red,
                CiJobStatus::Running => Tint::Yellow,
                _ => Tint::Plain,
            },
    {
        match self {
            CiJobStatus::Success => Tint::Green,
            CiJobStatus::Failed => Tint::Red,
            CiJobStatus::Running => Tint::Yellow,
            _ => Tint::Plain,
        }
    }
}

/// Why the data of a response could not be shaped into records.
#[derive(Clone, Copy, Debug, PartialEq, Eq, Structural)]
pub enum FetchError {
    MissingProject,
    MissingPipelines,
    NoPipelines,
    MissingBranch,
    MissingPath,
    MissingPipeline,
    NoStages,
    MissingStageName,
    MissingJobId,
    MissingJobName,
    MissingJobStatus,
}

/// One job of a pipeline.
#[derive(Clone, Debug)]
pub struct JobInfo {
    pub project_id: String,
    pub id: String,
    pub stage_name: String,
    pub name: String,
    pub status: CiJobStatus,
}

/// The text after the last `'/'` of `s`; all of `s` where it holds none.
pub open spec fn last_segment(s: Seq<char>) -> Seq<char>
    decreases s.len(),
{
    if s.len() == 0 {
        s
    } else if s.last() == '/' {
        seq![]
    } else {
        last_segment(s.drop_last()).push(s.last())
    }
}

proof fn lemma_last_segment(s: Seq<char>, k: int)
    requires
        0 <= k <= s.len(),
        k == 0 || s[k - 1] == '/',
        forall|j: int| k <= j < s.len() ==> s[j] != '/',
    ensures
        last_segment(s) == s.skip(k),
    decreases s.len(),
{
    if s.len() == k {
        assert(s.skip(k) =~= Seq::<char>::empty());
    } else {
        lemma_last_segment(s.drop_last(), k);
        assert(s.skip(k) =~= s.drop_last().skip(k).push(s.last()));
    }
}

/// The last `'/'`-separated segment of a global id.
fn tail_segment(s: &String) -> (r: String)
    ensures
        r@ == last_segment(s@),
{
    let cs = chars_of(s.as_str());
    let n = cs.len();
    let mut k: usize = n;
    while k > 0 && cs[k - 1] != '/'
        invariant
            n == cs@.len(),
            k <= n,
            forall|j: int| k <= j < n ==> cs@[j] != '/',
        decreases k,
    {
        k = k - 1;
    }
    proof {
        lemma_last_segment(cs@, k as int);
        assert(cs@.subrange(k as int, n as int) =~= cs@.skip(k as int));
    }
    string_of(vstd::slice::slice_subrange(cs.as_slice(), k, n))
}

impl JobInfo {
    /// The project's number: the last segment of its global id.
    pub fn project_id(&self) -> (r: Option<String>)
        ensures
            r is Some,
            r->0@ == last_segment(self.project_id@),
    {
        Some(tail_segment(&self.project_id))
    }

    /// The job's number: the last segment of its global id.
    pub fn job_id(&self) -> (r: Option<String>)
        ensures
            r is Some,
            r->0@ == last_segment(self.id@),
    {
        Some(tail_segment(&self.id))
    }
}

/// A job as the API returns it, each field possibly absent.
pub struct JobNode {
    pub id: Option<String>,
    pub name: Option<String>,
    pub status: Option<CiJobStatus>,
}

/// A stage as the API returns it, with its jobs.
pub struct StageNode {
    pub name: Option<String>,
    pub jobs: Option<Vec<Option<JobNode>>>,
}

/// The record of one job node: the first absent field, of id, name and
/// status, is the error.
pub open spec fn job_of(project_id: String, stage_name: String, n: JobNode) -> Result<JobInfo, FetchError> {
    if n.id is None {
        Err(FetchError::MissingJobId)
    } else if n.name is None {
        Err(FetchError::MissingJobName)
    } else if n.status is None {
        Err(FetchError::MissingJobStatus)
    } else {
        Ok(JobInfo {
            project_id,
            id: n.id->0,
            stage_name,
            name: n.name->0,
            status: n.status->0,
        })
    }
}

/// The records of each item in turn, concatenated; the first item that
/// gives an error decides the result.
pub open spec fn gather<A>(xs: Seq<A>, f: spec_fn(A) -> Result<Seq<JobInfo>, FetchError>) -> Result<Seq<JobInfo>, FetchError>
    decreases xs.len(),
{
    if xs.len() == 0 {
        Ok(seq![])
    } else {
        match gather(xs.drop_last(), f) {
            Err(e) => Err(e),
            Ok(js) => match f(xs.last()) {
                Err(e) => Err(e),
                Ok(more) => Ok(js + more),
            },
        }
    }
}

proof fn lemma_gather_err<A>(xs: Seq<A>, f: spec_fn(A) -> Result<Seq<JobInfo>, FetchError>, k: int)
    requires
        0 <= k <= xs.len(),
        gather(xs.take(k), f) is Err,
    ensures
        gather(xs, f) == gather(xs.take(k), f),
    decreases xs.len(),
{
    if k == xs.len() {
        assert(xs.take(k) =~= xs);
    } else {
        assert(xs.drop_last().take(k) =~= xs.take(k));
        lemma_gather_err(xs.drop_last(), f, k);
    }
}

/// The record of a job node, if it is present.
pub open spec fn node_jobs(project_id: String, stage_name: String, o: Option<JobNode>) -> Result<Seq<JobInfo>, FetchError> {
    match o {
        None => Ok(seq![]),
        Some(n) => match job_of(project_id, stage_name, n) {
            Err(e) => Err(e),
            Ok(j) => Ok(seq![j]),
        },
    }
}

/// The records of the present nodes, in order.
pub open spec fn jobs_of(project_id: String, stage_name: String, ns: Seq<Option<JobNode>>) -> Result<Seq<JobInfo>, FetchError> {
    gather(ns, |o: Option<JobNode>| node_jobs(project_id, stage_name, o))
}

/// The records of a stage's jobs: an error where the stage has no name.
pub open spec fn stage_jobs_spec(project_id: String, s: StageNode) -> Result<Seq<JobInfo>, FetchError> {
    if s.name is None {
        Err(FetchError::MissingStageName)
    } else {
        match s.jobs {
            None => Ok(seq![]),
            Some(v) => jobs_of(project_id, s.name->0, v@),
        }
    }
}

/// The records of the jobs of one stage, in the order of the response.
pub fn stage_jobs(project_id: String, stage_job: &StageNode) -> (r: Result<Vec<JobInfo>, FetchError>)
    ensures
        r matches Ok(v) ==> stage_jobs_spec(project_id, *stage_job) == Ok::<Seq<JobInfo>, FetchError>(v@),
        r matches Err(e) ==> stage_jobs_spec(project_id, *stage_job) == Err::<Seq<JobInfo>, FetchError>(e),
{
    let stage_name = match &stage_job.name {
        Some(n) => n.clone(),
        None => return Err(FetchError::MissingStageName),
    };
    let mut res: Vec<JobInfo> = Vec::new();
    match &stage_job.jobs {
        None => {},
        Some(jobs) => {
            let mut i: usize = 0;
            while i < jobs.len()
                invariant
                    i <= jobs@.len(),
                    stage_job.jobs == Some(*jobs),
                    stage_job.name == Some(stage_name),
                    jobs_of(project_id, stage_name, jobs@.take(i as int)) == Ok::<Seq<JobInfo>, FetchError>(res@),
                decreases jobs@.len() - i,
            {
                assert(jobs@.take(i + 1).drop_last() =~= jobs@.take(i as int));
                match &jobs[i] {
                    None => {
                        assert(res@ =~= res@ + Seq::<JobInfo>::empty());
                    },
                    Some(job) => {
                        assert(jobs@.take(i + 1).last() == Some(*job));
                        if job.id.is_none() || job.name.is_none() || job.status.is_none() {
                            proof {
                                lemma_gather_err(jobs@, |o: Option<JobNode>| node_jobs(project_id, stage_name, o), i + 1);
                            }
                            if job.id.is_none() {
                                return Err(FetchError::MissingJobId);
                            } else if job.name.is_none() {
                                return Err(FetchError::MissingJobName);
                            } else {
                                return Err(FetchError::MissingJobStatus);
                            }
                        }
                        let id = match &job.id {
                            Some(x) => x.clone(),
                            None => String::new(),
                        };
                        let name = match &job.name {
                            Some(x) => x.clone(),
                            None => String::new(),
                        };
                        let status = match job.status {
                            Some(x) => x,
                            None => CiJobStatus::Other,
                        };
                        let ghost before = res@;
                        let job_info = JobInfo {
                            project_id: project_id.clone(),
                            id,
                            stage_name: stage_name.clone(),
                            name,
                            status,
                        };
                        res.push(job_info);
                        assert(res@ =~= before + seq![job_info]);
                    },
                }
                i = i + 1;
            }
            assert(jobs@.take(jobs@.len() as int) =~= jobs@);
        },
    }
    Ok(res)
}

/// A downstream pipeline as the API returns it, with its stages.
pub struct DownstreamNode {
    pub stages: Option<Vec<Option<StageNode>>>,
}

/// A pipeline as the API returns it: its own stages and its downstream
/// pipelines.
pub struct PipelineJobsNode {
    pub stages: Option<Vec<Option<StageNode>>>,
    pub downstream: Option<Vec<Option<DownstreamNode>>>,
}

/// A project as the API returns it, with the pipeline that was asked for.
pub struct ProjectJobs {
    pub id: String,
    pub pipeline: Option<PipelineJobsNode>,
}

/// The records of a stage, if it is present.
pub open spec fn stage_entry(project_id: String, o: Option<StageNode>) -> Result<Seq<JobInfo>, FetchError> {
    match o {
        None => Ok(seq![]),
        Some(s) => stage_jobs_spec(project_id, s),
    }
}

/// The records of all present stages, in order.
pub open spec fn stages_jobs(project_id: String, ss: Seq<Option<StageNode>>) -> Result<Seq<JobInfo>, FetchError> {
    gather(ss, |o: Option<StageNode>| stage_entry(project_id, o))
}

/// The records of a downstream pipeline's stages, if it has any.
pub open spec fn downstream_entry(project_id: String, o: Option<DownstreamNode>) -> Result<Seq<JobInfo>, FetchError> {
    match o {
        None => Ok(seq![]),
        Some(d) => match d.stages {
            None => Ok(seq![]),
            Some(v) => stages_jobs(project_id, v@),
        },
    }
}

/// The records of all downstream pipelines, in order.
pub open spec fn downstreams_jobs(project_id: String, ds: Seq<Option<DownstreamNode>>) -> Result<Seq<JobInfo>, FetchError> {
    gather(ds, |o: Option<DownstreamNode>| downstream_entry(project_id, o))
}

/// The records of a pipeline's jobs in the order of the response: its own
/// stages first, then those of its downstream pipelines.
pub open spec fn collected_jobs(project: Option<ProjectJobs>) -> Result<Seq<JobInfo>, FetchError> {
    match project {
        None => Err(FetchError::MissingProject),
        Some(p) => match p.pipeline {
            None => Err(FetchError::MissingPipeline),
            Some(pl) => match pl.stages {
                None => Err(FetchError::NoStages),
                Some(v) => match stages_jobs(p.id, v@) {
                    Err(e) => Err(e),
                    Ok(own) => match pl.downstream {
                        None => Ok(own),
                        Some(dv) => match downstreams_jobs(p.id, dv@) {
                            Err(e) => Err(e),
                            Ok(down) => Ok(own + down),
                        },
                    },
                },
            },
        },
    }
}

/// Place of a state in the list of jobs: failed, then running, then
/// pending, then all others.
pub open spec fn rank(s: CiJobStatus) -> nat {
    match s {
        CiJobStatus::Failed => 0,
        CiJobStatus::Running => 1,
        CiJobStatus::Pending => 2,
        _ => 3,
    }
}

/// The jobs of rank `k`, in their order.
pub open spec fn of_rank(js: Seq<JobInfo>, k: nat) -> Seq<JobInfo> {
    js.filter(|j: JobInfo| rank(j.status) == k)
}

/// The jobs ordered by rank; jobs of one rank keep their order.
pub open spec fn job_order(js: Seq<JobInfo>) -> Seq<JobInfo> {
    of_rank(js, 0) + of_rank(js, 1) + of_rank(js, 2) + of_rank(js, 3)
}

/// The jobs of a pipeline as they are listed: collected, then ordered.
pub open spec fn pipeline_jobs_spec(project: Option<ProjectJobs>) -> Result<Seq<JobInfo>, FetchError> {
    match collected_jobs(project) {
        Err(e) => Err(e),
        Ok(js) => Ok(job_order(js)),
    }
}

/// The number of jobs in state `s`.
pub open spec fn status_count(js: Seq<JobInfo>, s: CiJobStatus) -> nat {
    js.filter(|j: JobInfo| j.status == s).len()
}

fn rank_of(s: CiJobStatus) -> (r: u8)
    ensures
        r as nat == rank(s),
{
    match s {
        CiJobStatus::Failed => 0,
        CiJobStatus::Running => 1,
        CiJobStatus::Pending => 2,
        _ => 3,
    }
}

fn dup_job(j: &JobInfo) -> (r: JobInfo)
    ensures
        r == *j,
{
    JobInfo {
        project_id: j.project_id.clone(),
        id: j.id.clone(),
        stage_name: j.stage_name.clone(),
        name: j.name.clone(),
        status: j.status,
    }
}

fn push_rank(out: &mut Vec<JobInfo>, jobs: &Vec<JobInfo>, k: u8)
    ensures
        final(out)@ == old(out)@ + of_rank(jobs@, k as nat),
{
    let mut i: usize = 0;
    while i < jobs.len()
        invariant
            i <= jobs@.len(),
            out@ == old(out)@ + of_rank(jobs@.take(i as int), k as nat),
        decreases jobs@.len() - i,
    {
        proof {
            reveal(Seq::filter);
            assert(jobs@.take(i + 1).drop_last() =~= jobs@.take(i as int));
        }
        if rank_of(jobs[i].status) == k {
            out.push(dup_job(&jobs[i]));
            assert(out@ =~= old(out)@ + of_rank(jobs@.take(i + 1), k as nat));
        }
        i = i + 1;
    }
    assert(jobs@.take(jobs@.len() as int) =~= jobs@);
}

/// Lists failed jobs first, then running, then pending, then all others;
/// jobs of one state keep their order.
pub fn sort_jobs(jobs: &Vec<JobInfo>) -> (r: Vec<JobInfo>)
    ensures
        r@ == job_order(jobs@),
{
    let mut out: Vec<JobInfo> = Vec::new();
    push_rank(&mut out, jobs, 0);
    push_rank(&mut out, jobs, 1);
    push_rank(&mut out, jobs, 2);
    push_rank(&mut out, jobs, 3);
    assert(out@ =~= job_order(jobs@));
    out
}

/// The number of jobs in state `status`.
pub fn count_status(jobs: &Vec<JobInfo>, status: CiJobStatus) -> (r: usize)
    ensures
        r as nat == status_count(jobs@, status),
{
    let mut n: usize = 0;
    let mut i: usize = 0;
    while i < jobs.len()
        invariant
            i <= jobs@.len(),
            n as nat == status_count(jobs@.take(i as int), status),
            n <= i,
        decreases jobs@.len() - i,
    {
        proof {
            reveal(Seq::filter);
            assert(jobs@.take(i + 1).drop_last() =~= jobs@.take(i as int));
        }
        if jobs[i].status == status {
            n = n + 1;
        }
        i = i + 1;
    }
    assert(jobs@.take(jobs@.len() as int) =~= jobs@);
    n
}

/// Appends the records of the present stages; on the first stage that
/// cannot be shaped, returns its error.
fn gather_stages(project_id: &String, stages: &Vec<Option<StageNode>>, out: &mut Vec<JobInfo>) -> (r: Result<(), FetchError>)
    ensures
        match stages_jobs(*project_id, stages@) {
            Ok(m) => r is Ok && final(out)@ == old(out)@ + m,
            Err(e) => r == Err::<(), FetchError>(e),
        },
{
    let ghost f = |o: Option<StageNode>| stage_entry(*project_id, o);
    let mut i: usize = 0;
    while i < stages.len()
        invariant
            i <= stages@.len(),
            f == (|o: Option<StageNode>| stage_entry(*project_id, o)),
            gather(stages@.take(i as int), f) matches Ok(m) && out@ == old(out)@ + m,
        decreases stages@.len() - i,
    {
        assert(stages@.take(i + 1).drop_last() =~= stages@.take(i as int));
        assert(stages@.take(i + 1).last() == stages@[i as int]);
        let ghost before = out@;
        match &stages[i] {
            None => {
                assert(out@ =~= out@ + Seq::<JobInfo>::empty());
            },
            Some(stage) => {
                match stage_jobs(project_id.clone(), stage) {
                    Err(e) => {
                        proof {
                            lemma_gather_err(stages@, f, i + 1);
                        }
                        return Err(e);
                    },
                    Ok(jobs) => {
                        let mut jobs = jobs;
                        out.append(&mut jobs);
                    },
                }
            },
        }
        i = i + 1;
    }
    assert(stages@.take(stages@.len() as int) =~= stages@);
    Ok(())
}

/// Appends the records of all downstream pipelines' stages; on the first
/// stage that cannot be shaped, returns its error.
fn gather_downstreams(project_id: &String, ds: &Vec<Option<DownstreamNode>>, out: &mut Vec<JobInfo>) -> (r: Result<(), FetchError>)
    ensures
        match downstreams_jobs(*project_id, ds@) {
            Ok(m) => r is Ok && final(out)@ == old(out)@ + m,
            Err(e) => r == Err::<(), FetchError>(e),
        },
{
    let ghost f = |o: Option<DownstreamNode>| downstream_entry(*project_id, o);
    let mut i: usize = 0;
    while i < ds.len()
        invariant
            i <= ds@.len(),
            f == (|o: Option<DownstreamNode>| downstream_entry(*project_id, o)),
            gather(ds@.take(i as int), f) matches Ok(m) && out@ == old(out)@ + m,
        decreases ds@.len() - i,
    {
        assert(ds@.take(i + 1).drop_last() =~= ds@.take(i as int));
        assert(ds@.take(i + 1).last() == ds@[i as int]);
        match &ds[i] {
            None => {
                assert(out@ =~= out@ + Seq::<JobInfo>::empty());
            },
            Some(d) => match &d.stages {
                None => {
                    assert(out@ =~= out@ + Seq::<JobInfo>::empty());
                },
                Some(stages) => {
                    let ghost before = out@;
                    match gather_stages(project_id, stages, out) {
                        Err(e) => {
                            proof {
                                lemma_gather_err(ds@, f, i + 1);
                            }
                            return Err(e);
                        },
                        Ok(()) => {
                            assert(out@ =~= old(out)@ + gather(ds@.take(i + 1), f)->Ok_0);
                        },
                    }
                },
            },
        }
        i = i + 1;
    }
    assert(ds@.take(ds@.len() as int) =~= ds@);
    Ok(())
}

/// The jobs of a pipeline from the data of a response: the jobs of its
/// stages, then those of its downstream pipelines, listed failed first,
/// then running, then pending, then the others.
pub fn pipeline_jobs(project: &Option<ProjectJobs>) -> (r: Result<Vec<JobInfo>, FetchError>)
    ensures
        match pipeline_jobs_spec(*project) {
            Ok(js) => r matches Ok(v) && v@ == js,
            Err(e) => r == Err::<Vec<JobInfo>, FetchError>(e),
        },
{
    let p = match project {
        None => return Err(FetchError::MissingProject),
        Some(p) => p,
    };
    let pl = match &p.pipeline {
        None => return Err(FetchError::MissingPipeline),
        Some(pl) => pl,
    };
    let stages = match &pl.stages {
        None => return Err(FetchError::NoStages),
        Some(v) => v,
    };
    let mut res: Vec<JobInfo> = Vec::new();
    match gather_stages(&p.id, stages, &mut res) {
        Err(e) => return Err(e),
        Ok(()) => {},
    }
    match &pl.downstream {
        None => {},
        Some(dv) => match gather_downstreams(&p.id, dv, &mut res) {
            Err(e) => return Err(e),
            Ok(()) => {},
        },
    }
    Ok(sort_jobs(&res))
}

/// Host part of a pipeline's web address; the API gives the path.
pub const WEB_HOST: &'static str = "https://www.gitlab.com";

/// One pipeline of a project. `created_at` is in seconds since the epoch.
#[derive(Clone, Debug)]
pub struct PipelineInfo {
    pub project_name: String,
    pub pipeline_iid: String,
    pub branch: String,
    pub web_url: String,
    pub status: PipelineStatus,
    pub created_at: i64,
}

/// A pipeline as the API returns it, branch and path possibly absent.
pub struct PipelineNode {
    pub iid: String,
    pub created_at: i64,
    pub ref_: Option<String>,
    pub path: Option<String>,
    pub status: PipelineStatus,
}

/// The pipelines of a project as the API returns them.
pub struct PipelineConnection {
    pub nodes: Option<Vec<Option<PipelineNode>>>,
}

/// A project as the API returns it, with its pipelines.
pub struct ProjectPipelinesNode {
    pub pipelines: Option<PipelineConnection>,
}

/// A pipeline record agrees with a node of project `name`.
pub open spec fn describes(p: PipelineInfo, name: Seq<char>, n: PipelineNode) -> bool {
    &&& n.ref_ is Some
    &&& n.path is Some
    &&& p.project_name@ == name
    &&& p.pipeline_iid == n.iid
    &&& p.branch == n.ref_->0
    &&& p.web_url@ == WEB_HOST@ + n.path->0@
    &&& p.status == n.status
    &&& p.created_at == n.created_at
}

/// The present nodes, in order.
pub open spec fn present(ns: Seq<Option<PipelineNode>>) -> Seq<PipelineNode>
    decreases ns.len(),
{
    if ns.len() == 0 {
        seq![]
    } else {
        match ns.last() {
            None => present(ns.drop_last()),
            Some(n) => present(ns.drop_last()).push(n),
        }
    }
}

/// The error of the first present node that lacks a branch or a path.
pub open spec fn first_bad(ns: Seq<Option<PipelineNode>>) -> Option<FetchError>
    decreases ns.len(),
{
    if ns.len() == 0 {
        None
    } else {
        match first_bad(ns.drop_last()) {
            Some(e) => Some(e),
            None => match ns.last() {
                None => None,
                Some(n) => if n.ref_ is None {
                    Some(FetchError::MissingBranch)
                } else if n.path is None {
                    Some(FetchError::MissingPath)
                } else {
                    None
                },
            },
        }
    }
}

/// What shaping a project's pipelines owes: the error, or the nodes that
/// the records stand for.
pub open spec fn pipelines_outcome(project: Option<ProjectPipelinesNode>) -> Result<Seq<PipelineNode>, FetchError> {
    match project {
        None => Err(FetchError::MissingProject),
        Some(p) => match p.pipelines {
            None => Err(FetchError::MissingPipelines),
            Some(c) => match c.nodes {
                None => Err(FetchError::NoPipelines),
                Some(v) => match first_bad(v@) {
                    Some(e) => Err(e),
                    None => Ok(present(v@)),
                },
            },
        },
    }
}

proof fn lemma_first_bad(ns: Seq<Option<PipelineNode>>, k: int)
    requires
        0 <= k <= ns.len(),
        first_bad(ns.take(k)) is Some,
    ensures
        first_bad(ns) == first_bad(ns.take(k)),
    decreases ns.len(),
{
    if k == ns.len() {
        assert(ns.take(k) =~= ns);
    } else {
        assert(ns.drop_last().take(k) =~= ns.take(k));
        lemma_first_bad(ns.drop_last(), k);
    }
}

/// The pipelines of project `name` from the data of a response, in the
/// order of the response; absent nodes are passed over.
pub fn project_pipelines(name: &str, project: &Option<ProjectPipelinesNode>) -> (r: Result<Vec<PipelineInfo>, FetchError>)
    ensures
        match pipelines_outcome(*project) {
            Err(e) => r == Err::<Vec<PipelineInfo>, FetchError>(e),
            Ok(ns) => r matches Ok(v) && v@.len() == ns.len()
                && forall|k: int| 0 <= k < ns.len() ==> describes(#[trigger] v@[k], name@, ns[k]),
        },
{
    let p = match project {
        None => return Err(FetchError::MissingProject),
        Some(p) => p,
    };
    let c = match &p.pipelines {
        None => return Err(FetchError::MissingPipelines),
        Some(c) => c,
    };
    let nodes = match &c.nodes {
        None => return Err(FetchError::NoPipelines),
        Some(v) => v,
    };
    let mut res: Vec<PipelineInfo> = Vec::new();
    let mut i: usize = 0;
    while i < nodes.len()
        invariant
            i <= nodes@.len(),
            *project == Some(*p),
            p.pipelines == Some(*c),
            c.nodes == Some(*nodes),
            first_bad(nodes@.take(i as int)) is None,
            res@.len() == present(nodes@.take(i as int)).len(),
            forall|k: int| 0 <= k < res@.len() ==> describes(#[trigger] res@[k], name@, present(nodes@.take(i as int))[k]),
        decreases nodes@.len() - i,
    {
        assert(nodes@.take(i + 1).drop_last() =~= nodes@.take(i as int));
        assert(nodes@.take(i + 1).last() == nodes@[i as int]);
        match &nodes[i] {
            None => {},
            Some(node) => {
                let branch = match &node.ref_ {
                    Some(b) => b.clone(),
                    None => {
                        proof {
                            lemma_first_bad(nodes@, i + 1);
                        }
                        return Err(FetchError::MissingBranch);
                    },
                };
                let path = match &node.path {
                    Some(x) => x,
                    None => {
                        proof {
                            lemma_first_bad(nodes@, i + 1);
                        }
                        return Err(FetchError::MissingPath);
                    },
                };
                let web_url = String::from_str(WEB_HOST).concat(path.as_str());
                let info = PipelineInfo {
                    project_name: String::from_str(name),
                    pipeline_iid: node.iid.clone(),
                    branch,
                    web_url,
                    status: node.status,
                    created_at: node.created_at,
                };
                let ghost before = res@;
                res.push(info);
                proof {
                    let pr = present(nodes@.take(i + 1));
                    assert(pr == present(nodes@.take(i as int)).push(*node));
                    assert forall|k: int| 0 <= k < res@.len() implies describes(#[trigger] res@[k], name@, pr[k]) by {
                        if k < before.len() {
                            assert(res@[k] == before[k]);
                        }
                    }
                }
            },
        }
        i = i + 1;
    }
    assert(nodes@.take(nodes@.len() as int) =~= nodes@);
    Ok(res)
}

} // verus!
