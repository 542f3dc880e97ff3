//! The header, the pipeline summaries and the whole overview.

use crate::format::{decimal, duration_text, duration_to_string, push_decimal, status_icon, status_to_emoji};
use crate::jobs::{generate_job_overview, job_board};
use crate::layout::{render_columns, rendered, RenderColumnsAlignment};
use crate::model::{GitlabProjectPipelines, Job, Pipeline};
use crate::text::push_char;
use vstd::prelude::*;
use vstd::string::StringExecFns;

verus! {

/// Relies on `chrono::Utc::now`: the current time in milliseconds since the
/// Unix epoch. Nothing is promised of the value.
#[verifier::external_body]
fn now_millis() -> (r: i64) {
    chrono::Utc::now().timestamp_millis()
}

/// A single centred column of `width` columns.
pub open spec fn centered_block(lines: Seq<Seq<char>>, width: nat) -> Seq<char> {
    rendered(seq![lines], seq![width as usize], seq![RenderColumnsAlignment::Center])
}

fn render_block(lines: Vec<String>, width: usize) -> (r: String)
    ensures
        r@ == centered_block(lines.deep_view(), width as nat),
{
    let ghost l = lines.deep_view();
    let mut columns: Vec<Vec<String>> = Vec::new();
    columns.push(lines);
    let mut widths: Vec<usize> = Vec::new();
    widths.push(width);
    let mut alignments: Vec<RenderColumnsAlignment> = Vec::new();
    alignments.push(RenderColumnsAlignment::Center);
    assert(columns.deep_view() =~= seq![l]);
    assert(widths@ =~= seq![width]);
    assert(alignments@ =~= seq![RenderColumnsAlignment::Center]);
    match render_columns(columns, widths, alignments) {
        Ok(s) => s,
        Err(_) => String::new(),
    }
}

fn push_line(v: &mut Vec<String>, s: String)
    ensures
        final(v).deep_view() == old(v).deep_view().push(s@),
{
    v.push(s);
    assert(v.deep_view() =~= old(v).deep_view().push(s@));
}

/// The lines of the header of a project.
pub open spec fn header_lines(project: GitlabProjectPipelines) -> Seq<Seq<char>> {
    seq!["====   "@ + project.name@ + "   ===="@, project.web_url@] + (match project.description {
        Some(d) => seq![d@],
        None => Seq::empty(),
    }) + (if project.pipelines@.len() == 0 {
        seq!["There are no pipelines running for the remote head of the current branch"@]
    } else {
        Seq::empty()
    }) + seq![Seq::empty()]
}

/// The header of a project: its name, its web address, its description if
/// any, a notice where it has no pipelines, and a blank line, centred.
pub fn render_header(project: &GitlabProjectPipelines, width: usize) -> (r: String)
    ensures
        r@ == centered_block(header_lines(*project), width as nat),
{
    let mut left: Vec<String> = Vec::new();
    let mut title = String::from_str("====   ");
    title.append(project.name.as_str());
    title.append("   ====");
    push_line(&mut left, title);
    push_line(&mut left, project.web_url.clone());
    match &project.description {
        Some(d) => push_line(&mut left, d.clone()),
        None => {},
    }
    if project.pipelines.len() == 0 {
        push_line(
            &mut left,
            String::from_str("There are no pipelines running for the remote head of the current branch"),
        );
    }
    push_line(&mut left, String::new());
    assert(left.deep_view() =~= header_lines(*project));
    render_block(left, width)
}

/// Whole seconds from `created_ms` to `now_ms`, and none where the creation
/// lies ahead.
pub open spec fn age_secs(now_ms: i64, created_ms: i64) -> nat {
    if now_ms <= created_ms {
        0
    } else {
        ((now_ms - created_ms) / 1000) as nat
    }
}

/// Whole seconds from `created_ms` to `now_ms`, and none where the creation
/// lies ahead.
pub fn age_in_seconds(now_ms: i64, created_ms: i64) -> (r: u64)
    ensures
        r == age_secs(now_ms, created_ms),
{
    if now_ms <= created_ms {
        0
    } else {
        let diff: i128 = now_ms as i128 - created_ms as i128;
        (diff / 1000) as u64
    }
}

/// The line that names a pipeline's commit: "<ref> @ <sha>", or the sha
/// alone.
pub open spec fn ref_line(p: Pipeline) -> Seq<char> {
    match p.ref_name {
        Some(r) => r@ + " @ "@ + p.sha@,
        None => p.sha@,
    }
}

/// The line with a pipeline's status icon, label and duration.
pub open spec fn status_line(p: Pipeline) -> Seq<char> {
    let label = match p.label {
        Some(l) => l@,
        None => "unknown"@,
    };
    match p.duration {
        Some(d) => status_icon(p.status) + "  "@ + label + " in "@ + duration_text(d as nat),
        None => status_icon(p.status) + "   "@ + label,
    }
}

/// The lines of a pipeline's summary, its age measured at `now_ms`.
pub open spec fn pipeline_lines(p: Pipeline, now_ms: i64) -> Seq<Seq<char>> {
    seq!["====   Pipeline "@ + decimal(p.id as nat) + "   ===="@, p.web_url@] + (match p.created_at_ms {
        Some(c) => seq!["by "@ + p.author@ + seq![' '] + duration_text(age_secs(now_ms, c)) + " ago"@],
        None => Seq::empty(),
    }) + seq![ref_line(p), status_line(p)] + (match p.coverage {
        Some(c) => seq![c@ + "% coverage"@],
        None => Seq::empty(),
    }) + seq![Seq::empty()]
}

/// The summary of a pipeline, centred, its age measured at `now_ms`.
pub fn generate_pipeline_overview(pipeline: &Pipeline, width: usize, now_ms: i64) -> (r: String)
    ensures
        r@ == centered_block(pipeline_lines(*pipeline, now_ms), width as nat),
{
    let mut col: Vec<String> = Vec::new();
    let mut title = String::from_str("====   Pipeline ");
    push_decimal(&mut title, pipeline.id);
    title.append("   ====");
    assert(title@ =~= "====   Pipeline "@ + decimal(pipeline.id as nat) + "   ===="@);
    push_line(&mut col, title);
    push_line(&mut col, pipeline.web_url.clone());
    let ghost head = col.deep_view();
    match pipeline.created_at_ms {
        Some(c) => {
            let mut by = String::from_str("by ");
            by.append(pipeline.author.as_str());
            push_char(&mut by, ' ');
            let age = duration_to_string(age_in_seconds(now_ms, c));
            by.append(age.as_str());
            by.append(" ago");
            assert(by@ =~= "by "@ + pipeline.author@ + seq![' '] + duration_text(age_secs(now_ms, c)) + " ago"@);
            push_line(&mut col, by);
        },
        None => {},
    }
    let refl = match &pipeline.ref_name {
        Some(r) => {
            let mut l = r.clone();
            l.append(" @ ");
            l.append(pipeline.sha.as_str());
            l
        },
        None => pipeline.sha.clone(),
    };
    push_line(&mut col, refl);
    let mut status = String::from_str(status_to_emoji(pipeline.status));
    let label = match &pipeline.label {
        Some(l) => l.clone(),
        None => String::from_str("unknown"),
    };
    match pipeline.duration {
        Some(d) => {
            status.append("  ");
            status.append(label.as_str());
            status.append(" in ");
            let dur = duration_to_string(d);
            status.append(dur.as_str());
        },
        None => {
            status.append("   ");
            status.append(label.as_str());
        },
    }
    assert(status@ =~= status_line(*pipeline));
    assert(refl@ =~= ref_line(*pipeline));
    push_line(&mut col, status);
    match &pipeline.coverage {
        Some(c) => {
            let mut l = c.clone();
            l.append("% coverage");
            assert(l@ =~= c@ + "% coverage"@);
            push_line(&mut col, l);
        },
        None => {},
    }
    push_line(&mut col, String::new());
    assert(col.deep_view() =~= pipeline_lines(*pipeline, now_ms));
    render_block(col, width)
}

/// The summaries and job boards of the first `n` pipelines.
pub open spec fn pipelines_text(
    pipelines: Seq<(Pipeline, Vec<Job>)>,
    width: nat,
    now_ms: i64,
    n: int,
) -> Seq<char>
    decreases n,
{
    if n <= 0 {
        Seq::empty()
    } else {
        pipelines_text(pipelines, width, now_ms, n - 1) + centered_block(
            pipeline_lines(pipelines[n - 1].0, now_ms),
            width,
        ) + job_board(pipelines[n - 1].1@, width)
    }
}

/// The whole overview of a project at time `now_ms`.
pub open spec fn overview(project: GitlabProjectPipelines, width: nat, now_ms: i64) -> Seq<char> {
    centered_block(header_lines(project), width) + pipelines_text(
        project.pipelines@,
        width,
        now_ms,
        project.pipelines@.len() as int,
    )
}

/// The whole overview of a project in `width` columns, pipeline ages
/// measured at `now_ms`: the header, then for each pipeline its summary
/// and its job board.
pub fn render_at(project: &GitlabProjectPipelines, width: usize, now_ms: i64) -> (r: String)
    ensures
        r@ == overview(*project, width as nat, now_ms),
{
    let mut out = render_header(project, width);
    let mut i: usize = 0;
    while i < project.pipelines.len()
        invariant
            i <= project.pipelines.len(),
            out@ == centered_block(header_lines(*project), width as nat) + pipelines_text(
                project.pipelines@,
                width as nat,
                now_ms,
                i as int,
            ),
        decreases project.pipelines.len() - i,
    {
        let (pip, jobs) = &project.pipelines[i];
        let summary = generate_pipeline_overview(pip, width, now_ms);
        out.append(summary.as_str());
        let board = generate_job_overview(jobs, width);
        out.append(board.as_str());
        i = i + 1;
        assert(out@ =~= centered_block(header_lines(*project), width as nat) + pipelines_text(
            project.pipelines@,
            width as nat,
            now_ms,
            i as int,
        ));
    }
    out
}

/// The whole overview of a project in `width` columns, the current time
/// read once for all pipeline ages.
pub fn render(project: &GitlabProjectPipelines, width: usize) -> (r: String)
    ensures
        exists|now_ms: i64| r@ == #[trigger] overview(*project, width as nat, now_ms),
{
    let now = now_millis();
    render_at(project, width, now)
}

} // verus!
