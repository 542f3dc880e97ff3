//! The job board: one column per stage, each job listed under its stage.

use crate::format::{
    duration_text, duration_to_string, status_icon, status_to_emoji, StatusState,
    GREY_EXCLAMATION,
};
use crate::layout::{render_columns, rendered, RenderColumnsAlignment};
use crate::model::{Job, Runner};
use crate::text::push_char;
use vstd::prelude::*;
use vstd::string::StringExecFns;

verus! {

/// The runner column of a job: nothing without a runner, a placeholder for
/// a runner without a name.
pub open spec fn runner_text(runner: Option<Runner>) -> Seq<char> {
    match runner {
        None => Seq::empty(),
        Some(r) => match r.name {
            None => "[unnamed runner]"@,
            Some(n) => n@,
        },
    }
}

fn get_runner_name_text(runner: &Option<Runner>) -> (r: String)
    ensures
        r@ == runner_text(*runner),
{
    match runner {
        None => String::new(),
        Some(run) => match &run.name {
            None => String::from_str("[unnamed runner]"),
            Some(v) => v.clone(),
        },
    }
}

/// Artifacts that every job carries and the board leaves out.
pub open spec fn is_reserved_artifact(name: Seq<char>) -> bool {
    name == "job.log"@ || name == "metadata.gz"@
}

/// One line per artifact that is not reserved, in order.
pub open spec fn artifact_lines(names: Seq<Seq<char>>) -> Seq<Seq<char>>
    decreases names.len(),
{
    if names.len() == 0 {
        Seq::empty()
    } else if is_reserved_artifact(names.last()) {
        artifact_lines(names.drop_last())
    } else {
        artifact_lines(names.drop_last()).push("Artifact: "@ + names.last())
    }
}

/// The icon of a job: its status's, except that a failure the job may
/// have shows a grey exclamation mark.
pub open spec fn job_icon(job: Job) -> Seq<char> {
    if job.status == StatusState::Failed && job.allow_failure {
        GREY_EXCLAMATION@
    } else {
        status_icon(job.status)
    }
}

/// The lines of a job on the board.
pub open spec fn job_lines(job: Job) -> Seq<Seq<char>> {
    seq![
        Seq::empty(),
        job_icon(job) + "  "@ + job.name@,
        duration_text(
            match job.duration {
                Some(d) => d as nat,
                None => 0,
            },
        ) + seq![' '] + runner_text(job.runner),
    ] + (match job.coverage {
        Some(c) => seq!["Coverage: "@ + c@ + "%"@],
        None => Seq::empty(),
    }) + artifact_lines(job.artifacts.deep_view())
}

/// The lines of a job on the board: a blank line, its icon and name, its
/// duration and runner, its coverage if known, and one line per artifact
/// other than `job.log` and `metadata.gz`.
pub fn get_job_lines(job: &Job) -> (r: Vec<String>)
    ensures
        r.deep_view() == job_lines(*job),
{
    let symbol = if job.status == StatusState::Failed && job.allow_failure {
        GREY_EXCLAMATION
    } else {
        status_to_emoji(job.status)
    };
    let mut column: Vec<String> = Vec::new();
    column.push(String::new());
    assert(column.deep_view() =~= seq![Seq::<char>::empty()]);
    let mut title = String::from_str(symbol);
    title.append("  ");
    title.append(job.name.as_str());
    let ghost c1 = column.deep_view();
    column.push(title);
    assert(column.deep_view() =~= c1.push(title@));
    let secs = match job.duration {
        Some(d) => d,
        None => 0,
    };
    let mut timing = duration_to_string(secs);
    push_char(&mut timing, ' ');
    let runner = get_runner_name_text(&job.runner);
    timing.append(runner.as_str());
    let ghost c2 = column.deep_view();
    column.push(timing);
    assert(column.deep_view() =~= c2.push(timing@));
    match &job.coverage {
        None => {},
        Some(v) => {
            let mut line = String::from_str("Coverage: ");
            line.append(v.as_str());
            line.append("%");
            let ghost c3 = column.deep_view();
            column.push(line);
            assert(column.deep_view() =~= c3.push(line@));
        },
    }
    let ghost head = column.deep_view();
    let ghost names = job.artifacts.deep_view();
    let mut i: usize = 0;
    while i < job.artifacts.len()
        invariant
            names == job.artifacts.deep_view(),
            i <= job.artifacts.len(),
            column.deep_view() == head + artifact_lines(names.take(i as int)),
        decreases job.artifacts.len() - i,
    {
        let name = &job.artifacts[i];
        proof {
            assert(names.take(i + 1).drop_last() =~= names.take(i as int));
            assert(names[i as int] == name@);
        }
        let reserved = *name == String::from_str("job.log") || *name == String::from_str(
            "metadata.gz",
        );
        if !reserved {
            let mut line = String::from_str("Artifact: ");
            line.append(name.as_str());
            let ghost prev = column.deep_view();
            column.push(line);
            assert(column.deep_view() =~= prev.push(line@));
        }
        i = i + 1;
        assert(column.deep_view() =~= head + artifact_lines(names.take(i as int)));
    }
    assert(names.take(names.len() as int) =~= names);
    assert(title@ == job_icon(*job) + "  "@ + job.name@);
    assert(timing@ == duration_text(
        match job.duration {
            Some(d) => d as nat,
            None => 0,
        },
    ) + seq![' '] + runner_text(job.runner));
    assert(column.deep_view() =~= job_lines(*job));
    column
}

/// The entries of `s` without repeats, each where it first occurs.
pub open spec fn distinct_in_order(s: Seq<Seq<char>>) -> Seq<Seq<char>>
    decreases s.len(),
{
    if s.len() == 0 {
        Seq::empty()
    } else {
        let d = distinct_in_order(s.drop_last());
        if d.contains(s.last()) {
            d
        } else {
            d.push(s.last())
        }
    }
}

/// The stage names of the jobs, from the last job to the first.
pub open spec fn stage_names_backward(jobs: Seq<Job>) -> Seq<Seq<char>> {
    jobs.reverse().map_values(|j: Job| j.stage@)
}

/// The stages in the order in which a scan from the last job to the first
/// meets them.
pub open spec fn stage_order(jobs: Seq<Job>) -> Seq<Seq<char>> {
    distinct_in_order(stage_names_backward(jobs))
}

fn contains_name(v: &Vec<String>, s: &String) -> (r: bool)
    ensures
        r == v.deep_view().contains(s@),
{
    let mut i: usize = 0;
    while i < v.len()
        invariant
            i <= v.len(),
            forall|k: int| 0 <= k < i ==> v.deep_view()[k] != s@,
        decreases v.len() - i,
    {
        if v[i] == *s {
            assert(v.deep_view()[i as int] == s@);
            return true;
        }
        assert(v.deep_view()[i as int] == v@[i as int]@);
        i = i + 1;
    }
    false
}

/// The distinct stages of `jobs`, in the order in which a scan from the
/// last job to the first meets them.
pub fn get_stages(jobs: &Vec<Job>) -> (r: Vec<String>)
    ensures
        r.deep_view() == stage_order(jobs@),
{
    let ghost names = stage_names_backward(jobs@);
    let n = jobs.len();
    let mut stages: Vec<String> = Vec::new();
    let mut t: usize = 0;
    while t < n
        invariant
            n == jobs.len(),
            names == stage_names_backward(jobs@),
            names.len() == n,
            t <= n,
            stages.deep_view() == distinct_in_order(names.take(t as int)),
        decreases n - t,
    {
        let job = &jobs[n - 1 - t];
        proof {
            assert(names[t as int] == job.stage@);
            assert(names.take(t + 1).drop_last() =~= names.take(t as int));
        }
        if !contains_name(&stages, &job.stage) {
            let ghost prev = stages.deep_view();
            stages.push(job.stage.clone());
            assert(stages.deep_view() =~= prev.push(job.stage@));
        }
        t = t + 1;
    }
    assert(names.take(n as int) =~= names);
    stages
}

/// The lines of the jobs of one stage, in the order of `jobs`.
pub open spec fn stage_lines(jobs: Seq<Job>, stage: Seq<char>) -> Seq<Seq<char>>
    decreases jobs.len(),
{
    if jobs.len() == 0 {
        Seq::empty()
    } else if jobs.last().stage@ == stage {
        stage_lines(jobs.drop_last(), stage) + job_lines(jobs.last())
    } else {
        stage_lines(jobs.drop_last(), stage)
    }
}

/// The title line of a stage's column.
pub open spec fn stage_title(stage: Seq<char>) -> Seq<char> {
    "=====  "@ + stage + "  ====="@
}

/// The column of a stage: its title, then its jobs from last to first.
pub open spec fn stage_column(jobs: Seq<Job>, stage: Seq<char>) -> Seq<Seq<char>> {
    seq![stage_title(stage)] + stage_lines(jobs.reverse(), stage)
}

/// One column per stage, in stage order.
pub open spec fn board_columns(jobs: Seq<Job>) -> Seq<Seq<Seq<char>>> {
    stage_order(jobs).map_values(|s: Seq<char>| stage_column(jobs, s))
}

/// The width of each stage's column: an equal share of `width` less one
/// column, and no less than zero.
pub open spec fn stage_width(width: nat, stages: nat) -> nat {
    if stages == 0 || width / stages < 1 {
        0
    } else {
        (width / stages - 1) as nat
    }
}

/// The job board of `jobs` in `width` columns.
pub open spec fn job_board(jobs: Seq<Job>, width: nat) -> Seq<char> {
    let n = stage_order(jobs).len();
    rendered(
        board_columns(jobs),
        Seq::new(n, |_i: int| stage_width(width, n) as usize),
        Seq::new(n, |_i: int| RenderColumnsAlignment::Center),
    )
}

fn stage_column_lines(jobs: &Vec<Job>, stage: &String) -> (r: Vec<String>)
    ensures
        r.deep_view() == stage_column(jobs@, stage@),
{
    let ghost rev = jobs@.reverse();
    let n = jobs.len();
    let mut title = String::from_str("=====  ");
    title.append(stage.as_str());
    title.append("  =====");
    let mut column: Vec<String> = Vec::new();
    column.push(title);
    assert(column.deep_view() =~= seq![stage_title(stage@)]);
    let mut t: usize = 0;
    while t < n
        invariant
            n == jobs.len(),
            rev == jobs@.reverse(),
            t <= n,
            column.deep_view() == seq![stage_title(stage@)] + stage_lines(rev.take(t as int), stage@),
        decreases n - t,
    {
        let job = &jobs[n - 1 - t];
        proof {
            assert(rev[t as int] == *job);
            assert(rev.take(t + 1).drop_last() =~= rev.take(t as int));
        }
        if job.stage == *stage {
            let lines = get_job_lines(job);
            let ghost base = column.deep_view();
            let mut k: usize = 0;
            while k < lines.len()
                invariant
                    k <= lines.len(),
                    column.deep_view() == base + lines.deep_view().take(k as int),
                decreases lines.len() - k,
            {
                let line = lines[k].clone();
                assert(lines.deep_view()[k as int] == line@);
                let ghost prev = column.deep_view();
                column.push(line);
                assert(column.deep_view() =~= prev.push(line@));
                k = k + 1;
                assert(column.deep_view() =~= base + lines.deep_view().take(k as int));
            }
            assert(lines.deep_view().take(k as int) =~= lines.deep_view());
        }
        t = t + 1;
        assert(column.deep_view() =~= seq![stage_title(stage@)] + stage_lines(
            rev.take(t as int),
            stage@,
        ));
    }
    assert(rev.take(n as int) =~= rev);
    column
}

/// Renders the jobs as a board with one centred column per stage, stages
/// in the order in which a scan from the last job to the first meets them;
/// with no jobs the board is empty.
pub fn generate_job_overview(jobs: &Vec<Job>, width: usize) -> (r: String)
    ensures
        r@ == job_board(jobs@, width as nat),
{
    let stages = get_stages(jobs);
    let n = stages.len();
    let per_stage: usize = if n == 0 || width / n < 1 {
        0
    } else {
        width / n - 1
    };
    let ghost order = stage_order(jobs@);
    let mut columns: Vec<Vec<String>> = Vec::new();
    let mut widths: Vec<usize> = Vec::new();
    let mut alignments: Vec<RenderColumnsAlignment> = Vec::new();
    let mut k: usize = 0;
    while k < n
        invariant
            n == stages.len(),
            stages.deep_view() == order,
            order == stage_order(jobs@),
            per_stage == stage_width(width as nat, n as nat),
            k <= n,
            columns.len() == k,
            widths.len() == k,
            alignments.len() == k,
            columns.deep_view() == board_columns(jobs@).take(k as int),
            widths@ == Seq::new(k as nat, |_i: int| per_stage),
            alignments@ == Seq::new(k as nat, |_i: int| RenderColumnsAlignment::Center),
        decreases n - k,
    {
        assert(order[k as int] == stages@[k as int]@);
        let col = stage_column_lines(jobs, &stages[k]);
        let ghost prev = columns.deep_view();
        columns.push(col);
        assert(columns.deep_view() =~= prev.push(col.deep_view()));
        widths.push(per_stage);
        alignments.push(RenderColumnsAlignment::Center);
        k = k + 1;
        assert(columns.deep_view() =~= board_columns(jobs@).take(k as int));
        assert(widths@ =~= Seq::new(k as nat, |_i: int| per_stage));
        assert(alignments@ =~= Seq::new(k as nat, |_i: int| RenderColumnsAlignment::Center));
    }
    assert(board_columns(jobs@).take(n as int) =~= board_columns(jobs@));
    match render_columns(columns, widths, alignments) {
        Ok(s) => s,
        Err(_) => String::new(),
    }
}

/// The reserved artifacts never show on the board; every other artifact
/// shows as one line, in the order of the job's list.
pub proof fn lemma_artifact_lines(names: Seq<Seq<char>>)
    ensures
        artifact_lines(names) == names.filter(|a: Seq<char>| !is_reserved_artifact(a)).map_values(
            |a: Seq<char>| "Artifact: "@ + a,
        ),
        forall|i: int|
            0 <= i < names.len() && is_reserved_artifact(#[trigger] names[i]) ==> !artifact_lines(
                names,
            ).contains("Artifact: "@ + names[i]),
    decreases names.len(),
{
    reveal(Seq::filter);
    let keep = |a: Seq<char>| !is_reserved_artifact(a);
    let line = |a: Seq<char>| "Artifact: "@ + a;
    if names.len() > 0 {
        let d = names.drop_last();
        lemma_artifact_lines(d);
        assert(names.filter(keep) == (if keep(names.last()) {
            d.filter(keep).push(names.last())
        } else {
            d.filter(keep)
        }));
        if keep(names.last()) {
            assert(d.filter(keep).push(names.last()).map_values(line) =~= d.filter(keep).map_values(
                line,
            ).push(line(names.last())));
        }
        assert forall|i: int|
            0 <= i < names.len() && is_reserved_artifact(#[trigger] names[i]) implies !artifact_lines(
            names,
        ).contains("Artifact: "@ + names[i]) by {
            let x = names[i];
            if artifact_lines(names).contains("Artifact: "@ + x) {
                let k = choose|k: int|
                    0 <= k < artifact_lines(names).len() && artifact_lines(names)[k] == "Artifact: "@
                        + x;
                let f = names.filter(keep);
                assert(artifact_lines(names)[k] == line(f[k]));
                names.lemma_filter_pred(keep, k);
                let p = "Artifact: "@;
                assert((p + f[k]).subrange(p.len() as int, (p + f[k]).len() as int) =~= f[k]);
                assert((p + x).subrange(p.len() as int, (p + x).len() as int) =~= x);
            }
        }
    }
}

/// `x` occurs in `s` before position `q`.
pub open spec fn occurs_before(s: Seq<Seq<char>>, x: Seq<char>, q: int) -> bool {
    exists|p: int| 0 <= p < q && #[trigger] s[p] == x
}

proof fn lemma_distinct_in_order(s: Seq<Seq<char>>)
    ensures
        distinct_in_order(s).no_duplicates(),
        forall|i: int| 0 <= i < s.len() ==> distinct_in_order(s).contains(#[trigger] s[i]),
        forall|k: int| 0 <= k < distinct_in_order(s).len() ==> s.contains(#[trigger] distinct_in_order(s)[k]),
        forall|a: int, b: int, q: int|
            #![trigger s[q], distinct_in_order(s)[b], distinct_in_order(s)[a]]
            0 <= a < b < distinct_in_order(s).len() && 0 <= q < s.len() && s[q]
                == distinct_in_order(s)[b] ==> occurs_before(s, distinct_in_order(s)[a], q),
    decreases s.len(),
{
    if s.len() > 0 {
        let t = s.drop_last();
        let dt = distinct_in_order(t);
        let d = distinct_in_order(s);
        let last = s.last();
        lemma_distinct_in_order(t);
        assert forall|i: int| 0 <= i < s.len() implies d.contains(#[trigger] s[i]) by {
            if i < t.len() {
                assert(t[i] == s[i]);
                let j = choose|j: int| 0 <= j < dt.len() && dt[j] == t[i];
                assert(d[j] == s[i]);
            } else if !dt.contains(last) {
                assert(d[dt.len() as int] == s[i]);
            }
        }
        assert forall|k: int| 0 <= k < d.len() implies s.contains(#[trigger] d[k]) by {
            if k < dt.len() {
                assert(d[k] == dt[k]);
                let j = choose|j: int| 0 <= j < t.len() && t[j] == dt[k];
                assert(s[j] == t[j]);
            } else {
                assert(s[s.len() - 1] == d[k]);
            }
        }
        assert forall|a: int, b: int, q: int|
            #![trigger s[q], distinct_in_order(s)[b], distinct_in_order(s)[a]]
            0 <= a < b < distinct_in_order(s).len() && 0 <= q < s.len() && s[q] == distinct_in_order(s)[b] implies occurs_before(s, distinct_in_order(s)[a], q) by {
            assert(d[a] == dt[a]);
            if q < t.len() {
                assert(t[q] == s[q]);
                if b < dt.len() {
                    assert(d[b] == dt[b]);
                    let p = choose|p: int| 0 <= p < q && #[trigger] t[p] == dt[a];
                    assert(s[p] == t[p]);
                    assert(occurs_before(s, d[a], q));
                } else {
                    assert(dt.contains(t[q]));
                }
            } else {
                if b < dt.len() {
                    assert(d[b] == dt[b]);
                    assert(dt[b] == last);
                }
                assert(t.contains(dt[a]));
                let p = choose|p: int| 0 <= p < t.len() && t[p] == dt[a];
                assert(s[p] == t[p]);
                assert(occurs_before(s, d[a], q));
            }
        }
        if !dt.contains(last) {
            assert forall|i: int, j: int| 0 <= i < d.len() && 0 <= j < d.len() && i != j implies d[i]
                != d[j] by {
                if i < dt.len() && j < dt.len() {
                    assert(d[i] == dt[i] && d[j] == dt[j]);
                } else if i < dt.len() {
                    assert(d[i] == dt[i]);
                } else if j < dt.len() {
                    assert(d[j] == dt[j]);
                }
            }
        }
    }
}

/// The board has one column per distinct stage and no stage twice; every
/// job's stage has its column, which holds the title and the lines of
/// exactly the jobs of that stage; and the columns stand in the order in
/// which a scan from the last job to the first first meets their stages.
pub proof fn lemma_board_groups_by_stage(jobs: Seq<Job>)
    ensures
        stage_order(jobs).no_duplicates(),
        forall|i: int| 0 <= i < jobs.len() ==> stage_order(jobs).contains(#[trigger] jobs[i].stage@),
        board_columns(jobs).len() == stage_order(jobs).len(),
        forall|k: int|
            0 <= k < board_columns(jobs).len() ==> #[trigger] board_columns(jobs)[k] == seq![
                stage_title(stage_order(jobs)[k]),
            ] + stage_lines(jobs.reverse(), stage_order(jobs)[k]),
        forall|a: int, b: int, q: int|
            #![trigger stage_names_backward(jobs)[q], stage_order(jobs)[b], stage_order(jobs)[a]]
            0 <= a < b < stage_order(jobs).len() && 0 <= q < jobs.len()
                && stage_names_backward(jobs)[q] == stage_order(jobs)[b]
                ==> occurs_before(stage_names_backward(jobs), stage_order(jobs)[a], q),
{
    let names = stage_names_backward(jobs);
    lemma_distinct_in_order(names);
    assert forall|i: int| 0 <= i < jobs.len() implies stage_order(jobs).contains(
        #[trigger] jobs[i].stage@,
    ) by {
        let q = jobs.len() - 1 - i;
        assert(names[q] == jobs.reverse()[q].stage@);
        assert(names[q] == jobs[i].stage@);
    }
    assert forall|a: int, b: int, q: int|
        #![trigger stage_names_backward(jobs)[q], stage_order(jobs)[b], stage_order(jobs)[a]]
        0 <= a < b < stage_order(jobs).len() && 0 <= q < jobs.len()
            && stage_names_backward(jobs)[q] == stage_order(jobs)[b]
            implies occurs_before(stage_names_backward(jobs), stage_order(jobs)[a], q) by {
        let d = distinct_in_order(names);
        assert(names[q] == d[b] && d[a] == stage_order(jobs)[a]);
    }
}

} // verus!
