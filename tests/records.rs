use glpipes::graphql::{
    count_status, pipeline_jobs, project_pipelines, sort_jobs, stage_jobs, CiJobStatus,
    DownstreamNode, FetchError, JobInfo, JobNode, PipelineConnection, PipelineJobsNode,
    PipelineNode, PipelineStatus, ProjectJobs, ProjectPipelinesNode, StageNode, Tint,
};
use glpipes::config::default_num_pipelines;

fn job(name: &str, status: CiJobStatus) -> JobInfo {
    JobInfo {
        project_id: "gid://gitlab/Project/42".to_string(),
        id: format!("gid://gitlab/Ci::Build/{}", name.len()),
        stage_name: "test".to_string(),
        name: name.to_string(),
        status,
    }
}

fn node(id: &str, name: &str, status: CiJobStatus) -> Option<JobNode> {
    Some(JobNode {
        id: Some(id.to_string()),
        name: Some(name.to_string()),
        status: Some(status),
    })
}

fn stage(name: &str, jobs: Vec<Option<JobNode>>) -> Option<StageNode> {
    Some(StageNode { name: Some(name.to_string()), jobs: Some(jobs) })
}

fn names(jobs: &[JobInfo]) -> Vec<String> {
    jobs.iter().map(|j| j.name.clone()).collect()
}

#[test]
fn sort_puts_failed_then_running() {
    let jobs = vec![
        job("a", CiJobStatus::Failed),
        job("b", CiJobStatus::Success),
        job("c", CiJobStatus::Running),
    ];
    let sorted = sort_jobs(&jobs);
    let states: Vec<CiJobStatus> = sorted.iter().map(|j| j.status).collect();
    assert_eq!(states, vec![CiJobStatus::Failed, CiJobStatus::Running, CiJobStatus::Success]);
}

#[test]
fn sort_is_stable_within_a_state() {
    let jobs = vec![
        job("s1", CiJobStatus::Success),
        job("p1", CiJobStatus::Pending),
        job("f1", CiJobStatus::Failed),
        job("s2", CiJobStatus::Skipped),
        job("p2", CiJobStatus::Pending),
        job("f2", CiJobStatus::Failed),
        job("r1", CiJobStatus::Running),
    ];
    let sorted = sort_jobs(&jobs);
    assert_eq!(names(&sorted), vec!["f1", "f2", "r1", "p1", "p2", "s1", "s2"]);
}

#[test]
fn ids_are_last_segments() {
    let j = job("abc", CiJobStatus::Success);
    assert_eq!(j.project_id(), Some("42".to_string()));
    assert_eq!(j.job_id(), Some("3".to_string()));
    let plain = JobInfo { project_id: "7".to_string(), id: "a/b/".to_string(), ..j };
    assert_eq!(plain.project_id(), Some("7".to_string()));
    assert_eq!(plain.job_id(), Some("".to_string()));
}

#[test]
fn count_of_pending_jobs() {
    let jobs = vec![
        job("a", CiJobStatus::Pending),
        job("b", CiJobStatus::Success),
        job("c", CiJobStatus::Pending),
    ];
    assert_eq!(count_status(&jobs, CiJobStatus::Pending), 2);
    assert_eq!(count_status(&jobs, CiJobStatus::Failed), 0);
}

#[test]
fn stage_jobs_in_order_with_stage_name() {
    let s = StageNode {
        name: Some("build".to_string()),
        jobs: Some(vec![node("1", "x", CiJobStatus::Success), None, node("2", "y", CiJobStatus::Failed)]),
    };
    let jobs = stage_jobs("p".to_string(), &s).unwrap();
    assert_eq!(names(&jobs), vec!["x", "y"]);
    assert!(jobs.iter().all(|j| j.stage_name == "build" && j.project_id == "p"));
    assert_eq!(jobs[1].id, "2");
}

#[test]
fn stage_jobs_errors() {
    let unnamed = StageNode { name: None, jobs: None };
    assert_eq!(stage_jobs("p".to_string(), &unnamed).unwrap_err(), FetchError::MissingStageName);
    let no_id = StageNode {
        name: Some("s".to_string()),
        jobs: Some(vec![Some(JobNode { id: None, name: None, status: None })]),
    };
    assert_eq!(stage_jobs("p".to_string(), &no_id).unwrap_err(), FetchError::MissingJobId);
    let no_name = StageNode {
        name: Some("s".to_string()),
        jobs: Some(vec![Some(JobNode { id: Some("1".to_string()), name: None, status: None })]),
    };
    assert_eq!(stage_jobs("p".to_string(), &no_name).unwrap_err(), FetchError::MissingJobName);
    let no_status = StageNode {
        name: Some("s".to_string()),
        jobs: Some(vec![Some(JobNode { id: Some("1".to_string()), name: Some("n".to_string()), status: None })]),
    };
    assert_eq!(stage_jobs("p".to_string(), &no_status).unwrap_err(), FetchError::MissingJobStatus);
    let empty = StageNode { name: Some("s".to_string()), jobs: None };
    assert!(stage_jobs("p".to_string(), &empty).unwrap().is_empty());
}

#[test]
fn pipeline_jobs_collects_downstream_and_sorts() {
    let project = Some(ProjectJobs {
        id: "gid://gitlab/Project/9".to_string(),
        pipeline: Some(PipelineJobsNode {
            stages: Some(vec![
                stage("build", vec![node("1", "compile", CiJobStatus::Success)]),
                None,
                stage("test", vec![node("2", "unit", CiJobStatus::Running)]),
            ]),
            downstream: Some(vec![
                None,
                Some(DownstreamNode { stages: None }),
                Some(DownstreamNode {
                    stages: Some(vec![stage("deploy", vec![node("3", "ship", CiJobStatus::Failed)])]),
                }),
            ]),
        }),
    });
    let jobs = pipeline_jobs(&project).unwrap();
    assert_eq!(names(&jobs), vec!["ship", "unit", "compile"]);
    assert_eq!(jobs[0].stage_name, "deploy");
    assert!(jobs.iter().all(|j| j.project_id == "gid://gitlab/Project/9"));
}

#[test]
fn pipeline_jobs_errors() {
    assert_eq!(pipeline_jobs(&None).unwrap_err(), FetchError::MissingProject);
    let no_pipeline = Some(ProjectJobs { id: "p".to_string(), pipeline: None });
    assert_eq!(pipeline_jobs(&no_pipeline).unwrap_err(), FetchError::MissingPipeline);
    let no_stages = Some(ProjectJobs {
        id: "p".to_string(),
        pipeline: Some(PipelineJobsNode { stages: None, downstream: None }),
    });
    assert_eq!(pipeline_jobs(&no_stages).unwrap_err(), FetchError::NoStages);
    let bad_downstream = Some(ProjectJobs {
        id: "p".to_string(),
        pipeline: Some(PipelineJobsNode {
            stages: Some(vec![]),
            downstream: Some(vec![Some(DownstreamNode {
                stages: Some(vec![Some(StageNode { name: None, jobs: None })]),
            })]),
        }),
    });
    assert_eq!(pipeline_jobs(&bad_downstream).unwrap_err(), FetchError::MissingStageName);
}

fn pnode(iid: &str, branch: Option<&str>, path: Option<&str>) -> Option<PipelineNode> {
    Some(PipelineNode {
        iid: iid.to_string(),
        created_at: 1_600_000_000,
        ref_: branch.map(|b| b.to_string()),
        path: path.map(|p| p.to_string()),
        status: PipelineStatus::Success,
    })
}

fn project_with(nodes: Vec<Option<PipelineNode>>) -> Option<ProjectPipelinesNode> {
    Some(ProjectPipelinesNode { pipelines: Some(PipelineConnection { nodes: Some(nodes) }) })
}

#[test]
fn project_pipelines_builds_records() {
    let project = project_with(vec![pnode("12", Some("main"), Some("/g/p/-/pipelines/12")), None]);
    let pipes = project_pipelines("g/p", &project).unwrap();
    assert_eq!(pipes.len(), 1);
    assert_eq!(pipes[0].project_name, "g/p");
    assert_eq!(pipes[0].pipeline_iid, "12");
    assert_eq!(pipes[0].branch, "main");
    assert_eq!(pipes[0].web_url, "https://www.gitlab.com/g/p/-/pipelines/12");
    assert_eq!(pipes[0].created_at, 1_600_000_000);
    assert_eq!(pipes[0].status, PipelineStatus::Success);
}

#[test]
fn project_pipelines_errors() {
    assert_eq!(project_pipelines("x", &None).unwrap_err(), FetchError::MissingProject);
    let no_pipes = Some(ProjectPipelinesNode { pipelines: None });
    assert_eq!(project_pipelines("x", &no_pipes).unwrap_err(), FetchError::MissingPipelines);
    let no_nodes = Some(ProjectPipelinesNode { pipelines: Some(PipelineConnection { nodes: None }) });
    assert_eq!(project_pipelines("x", &no_nodes).unwrap_err(), FetchError::NoPipelines);
    let no_branch = project_with(vec![pnode("1", Some("a"), Some("/p")), pnode("2", None, None)]);
    assert_eq!(project_pipelines("x", &no_branch).unwrap_err(), FetchError::MissingBranch);
    let no_path = project_with(vec![pnode("1", Some("a"), None)]);
    assert_eq!(project_pipelines("x", &no_path).unwrap_err(), FetchError::MissingPath);
}

#[test]
fn status_tints() {
    assert_eq!(PipelineStatus::Success.tint(), Tint::Green);
    assert_eq!(PipelineStatus::Failed.tint(), Tint::Red);
    assert_eq!(PipelineStatus::Running.tint(), Tint::Plain);
    assert_eq!(CiJobStatus::Running.tint(), Tint::Yellow);
    assert_eq!(CiJobStatus::Pending.tint(), Tint::Plain);
}

#[test]
fn default_pipeline_count() {
    assert_eq!(default_num_pipelines(), 5);
}
