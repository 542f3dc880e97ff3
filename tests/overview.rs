use pipeline_viewer::poll::{cooldown_ticks, keep_waiting};
use pipeline_viewer::format::{duration_to_string, push_decimal, status_to_emoji, StatusState};
use pipeline_viewer::jobs::{generate_job_overview, get_job_lines, get_stages};
use pipeline_viewer::model::{GitlabProjectPipelines, Job, Pipeline, Runner};
use pipeline_viewer::overview::{age_in_seconds, generate_pipeline_overview, render_at, render_header};

fn job(name: &str, stage: &str, status: StatusState) -> Job {
    Job {
        name: name.to_string(),
        stage: stage.to_string(),
        status,
        allow_failure: false,
        duration: Some(12),
        runner: Some(Runner {
            name: Some("runner-1".to_string()),
        }),
        coverage: None,
        artifacts: vec![],
    }
}

fn pipeline() -> Pipeline {
    Pipeline {
        id: 42,
        ref_name: Some("main".to_string()),
        sha: "abc123".to_string(),
        web_url: "https://example.org/p/42".to_string(),
        author: "Sam".to_string(),
        status: StatusState::Success,
        label: Some("passed".to_string()),
        duration: Some(65),
        coverage: Some("87.5".to_string()),
        created_at_ms: None,
    }
}

#[test]
fn duration_words() {
    assert_eq!(duration_to_string(0), "not started yet");
    assert_eq!(duration_to_string(61), "1 minute 1 second");
    assert_eq!(duration_to_string(3661), "1 hour 1 minute 1 second");
    assert_eq!(duration_to_string(7322), "2 hours 2 minutes 2 seconds");
    assert_eq!(duration_to_string(3600), "1 hour");
    assert_eq!(duration_to_string(65), "1 minute 5 seconds");
    assert_eq!(duration_to_string(59), "59 seconds");
}

#[test]
fn decimal_digits() {
    let mut s = String::from("n=");
    push_decimal(&mut s, 1203);
    assert_eq!(s, "n=1203");
    let mut z = String::new();
    push_decimal(&mut z, 0);
    assert_eq!(z, "0");
}

#[test]
fn status_icons() {
    assert_eq!(status_to_emoji(StatusState::Pending), "⏸");
    assert_eq!(status_to_emoji(StatusState::Running), "▶️");
    assert_eq!(status_to_emoji(StatusState::Success), "✅");
    assert_eq!(status_to_emoji(StatusState::Failed), "❌");
    assert_eq!(status_to_emoji(StatusState::Canceled), "⏹");
    assert_eq!(status_to_emoji(StatusState::Skipped), "⏩");
    assert_eq!(status_to_emoji(StatusState::Manual), "⏯");
    assert_eq!(status_to_emoji(StatusState::Scheduled), "⏰");
}

#[test]
fn job_lines_leave_out_reserved_artifacts() {
    let mut j = job("compile", "build", StatusState::Failed);
    j.allow_failure = true;
    j.coverage = Some("50".to_string());
    j.artifacts = vec![
        "job.log".to_string(),
        "out.bin".to_string(),
        "metadata.gz".to_string(),
        "report.xml".to_string(),
    ];
    let lines = get_job_lines(&j);
    assert_eq!(
        lines,
        vec![
            "".to_string(),
            "❕  compile".to_string(),
            "12 seconds runner-1".to_string(),
            "Coverage: 50%".to_string(),
            "Artifact: out.bin".to_string(),
            "Artifact: report.xml".to_string(),
        ]
    );
}

#[test]
fn runner_without_name_and_no_runner() {
    let mut j = job("a", "s", StatusState::Running);
    j.runner = Some(Runner { name: None });
    j.duration = None;
    assert_eq!(get_job_lines(&j)[2], "not started yet [unnamed runner]");
    j.runner = None;
    assert_eq!(get_job_lines(&j)[2], "not started yet ");
}

#[test]
fn stages_in_backward_first_seen_order() {
    let jobs = vec![
        job("a", "build", StatusState::Success),
        job("b", "test", StatusState::Success),
        job("c", "build", StatusState::Success),
        job("d", "deploy", StatusState::Success),
    ];
    assert_eq!(
        get_stages(&jobs),
        vec!["deploy".to_string(), "build".to_string(), "test".to_string()]
    );
}

#[test]
fn job_board_groups_jobs_under_their_stage() {
    let jobs = vec![
        job("a", "build", StatusState::Success),
        job("b", "test", StatusState::Success),
        job("c", "build", StatusState::Success),
    ];
    let board = generate_job_overview(&jobs, 42);
    let lines: Vec<&str> = board.lines().collect();
    assert!(lines[0].starts_with("=====  build  ====="));
    assert!(lines[0].contains("=====  test  ====="));
    assert!(lines[2].contains("✅  c") && lines[2].contains("✅  b"));
    assert!(lines[5].contains("✅  a"));
    assert!(!lines[5].contains("✅  b"));
    for l in &lines {
        assert_eq!(l.chars().count() + l.matches('✅').count(), 40);
    }
}

#[test]
fn job_board_of_no_jobs_is_empty() {
    assert_eq!(generate_job_overview(&vec![], 80), "");
}

#[test]
fn job_board_narrower_than_its_stages() {
    let jobs = vec![job("a", "x", StatusState::Success), job("b", "y", StatusState::Success)];
    let board = generate_job_overview(&jobs, 1);
    assert!(board.lines().all(|l| l.is_empty()));
}

#[test]
fn header_with_notice() {
    let project = GitlabProjectPipelines {
        project_id: 1,
        name: "demo".to_string(),
        web_url: "https://example.org/demo".to_string(),
        description: Some("A demo".to_string()),
        pipelines: vec![],
    };
    let h = render_header(&project, 80);
    let lines: Vec<&str> = h.lines().collect();
    assert_eq!(lines.len(), 5);
    assert_eq!(lines[0].trim(), "====   demo   ====");
    assert_eq!(lines[2].trim(), "A demo");
    assert_eq!(
        lines[3].trim(),
        "There are no pipelines running for the remote head of the current branch"
    );
    assert!(lines.iter().all(|l| l.chars().count() == 80));
}

#[test]
fn pipeline_age() {
    assert_eq!(age_in_seconds(10_000, 4_500), 5);
    assert_eq!(age_in_seconds(1_000, 5_000), 0);
    assert_eq!(age_in_seconds(i64::MAX, i64::MIN), 18446744073709551);
}

#[test]
fn pipeline_summary_lines() {
    let mut p = pipeline();
    p.created_at_ms = Some(1_000_000);
    let s = generate_pipeline_overview(&p, 60, 1_000_000 + 3_661_500);
    let lines: Vec<String> = s.lines().map(|l| l.trim().to_string()).collect();
    assert_eq!(
        lines,
        vec![
            "====   Pipeline 42   ====".to_string(),
            "https://example.org/p/42".to_string(),
            "by Sam 1 hour 1 minute 1 second ago".to_string(),
            "main @ abc123".to_string(),
            "✅  passed in 1 minute 5 seconds".to_string(),
            "87.5% coverage".to_string(),
            "".to_string(),
        ]
    );
}

#[test]
fn pipeline_without_duration_or_label() {
    let mut p = pipeline();
    p.duration = None;
    p.label = None;
    p.ref_name = None;
    p.coverage = None;
    let s = generate_pipeline_overview(&p, 40, 0);
    let lines: Vec<String> = s.lines().map(|l| l.trim().to_string()).collect();
    assert_eq!(lines[2], "abc123");
    assert_eq!(lines[3], "✅   unknown");
    assert_eq!(lines.len(), 5);
}

#[test]
fn end_to_end_overview() {
    let project = GitlabProjectPipelines {
        project_id: 7,
        name: "demo".to_string(),
        web_url: "https://example.org/demo".to_string(),
        description: None,
        pipelines: vec![(
            pipeline(),
            vec![
                job("compile", "build", StatusState::Success),
                job("unit", "test", StatusState::Success),
            ],
        )],
    };
    let out = render_at(&project, 80, 0);
    let lines: Vec<&str> = out.lines().collect();
    assert!(lines.iter().any(|l| l.trim_end().ends_with("✅  passed in 1 minute 5 seconds")));
    assert!(lines.iter().any(|l| l.trim() == "87.5% coverage"));
    let titles: Vec<&&str> = lines.iter().filter(|l| l.contains("=====  ")).collect();
    assert_eq!(titles.len(), 1);
    let title_row = titles[0];
    let test_at = title_row.find("=====  test  =====").unwrap();
    let build_at = title_row.find("=====  build  =====").unwrap();
    assert!(test_at < build_at);
    assert!(lines.iter().any(|l| l.contains("✅  unit") && l.contains("✅  compile")));
    assert!(lines.iter().any(|l| l.matches("12 seconds runner-1").count() == 2));
}

#[test]
fn refresh_wait_in_ticks() {
    assert_eq!(cooldown_ticks(None), 100);
    assert_eq!(cooldown_ticks(Some(1234)), 24);
    assert!(keep_waiting(true, 3, 4));
    assert!(!keep_waiting(true, 4, 4));
    assert!(!keep_waiting(false, 0, 4));
}
