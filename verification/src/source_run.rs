//! The course of processing one video source.

use vstd::prelude::*;

use crate::failure::{is_logged_out, says_logged_out, Failure};

verus! {

/// The stages whose failure may be mended by refreshing the credentials of the account.
#[derive(Debug, Clone, Copy, PartialEq, Eq, Structural)]
pub enum Stage {
    Resolve,
    Refresh,
    Details,
    Download,
}

/// What is to be done next for a video source.
#[derive(Debug, Clone, Copy, PartialEq, Eq, Structural)]
pub enum SourceStep {
    /// Load the source and open its list of videos.
    Resolve { again: bool },
    /// Refresh the credentials after the stage failed.
    RefreshCredential { stage: Stage },
    /// Open the list of videos anew before it is read again.
    Reopen,
    /// Read the list of videos and record the new ones.
    Refresh { again: bool },
    /// Look whether tasks are paused or cancelled.
    CheckHalt { new_videos: usize },
    /// Look for work that earlier runs left.
    CheckPending,
    /// Fetch the details of the videos that lack them.
    Details { again: bool },
    /// Download what is not downloaded.
    Download { again: bool },
    /// Try failed videos once more.
    RetryFailed,
    /// Report the new videos.
    Succeed,
    /// Report the failure of the last stage.
    Fail,
}

/// What came of the last step.
#[derive(Debug, Clone)]
pub enum Report {
    /// The step was carried out.
    Done,
    /// The list was read: so many videos are new.
    Found(usize),
    /// Whether tasks are paused or cancelled.
    Halted(bool),
    /// Whether earlier runs left work.
    Pending { unfilled: bool, unhandled: bool, failed: bool, danmaku: bool },
    /// The step failed.
    Failed(Failure),
}

/// The first step.
pub open spec fn first_source_step() -> SourceStep {
    SourceStep::Resolve { again: false }
}

/// The step after a stage failed for the first time.
pub open spec fn after_failure(stage: Stage, failure: Failure) -> SourceStep {
    if stage == Stage::Details && failure.abort {
        SourceStep::Fail
    } else if says_logged_out(failure.message@) {
        SourceStep::RefreshCredential { stage }
    } else {
        SourceStep::Fail
    }
}

/// The step that repeats a stage.
pub open spec fn repetition(stage: Stage) -> SourceStep {
    match stage {
        Stage::Resolve => SourceStep::Resolve { again: true },
        Stage::Refresh => SourceStep::Reopen,
        Stage::Details => SourceStep::Details { again: true },
        Stage::Download => SourceStep::Download { again: true },
    }
}

/// The stage that a step carries out, if a failure of that step may be mended.
pub open spec fn mendable_stage(step: SourceStep) -> Option<Stage> {
    match step {
        SourceStep::Resolve { again: false } => Some(Stage::Resolve),
        SourceStep::Refresh { again: false } => Some(Stage::Refresh),
        SourceStep::Details { again: false } => Some(Stage::Details),
        SourceStep::Download { again: false } => Some(Stage::Download),
        _ => None,
    }
}

/// The step after one that was carried out.
pub open spec fn after_success(step: SourceStep, report: Report, scan_only: bool) -> SourceStep {
    match (step, report) {
        (SourceStep::Resolve { again }, Report::Done) => SourceStep::Refresh { again: false },
        (SourceStep::RefreshCredential { stage }, Report::Done) => repetition(stage),
        (SourceStep::Reopen, Report::Done) => SourceStep::Refresh { again: true },
        (SourceStep::Refresh { again }, Report::Found(count)) => SourceStep::CheckHalt {
            new_videos: count,
        },
        (SourceStep::CheckHalt { new_videos }, Report::Halted(halted)) => if halted {
            SourceStep::Succeed
        } else if new_videos == 0 {
            SourceStep::CheckPending
        } else {
            SourceStep::Details { again: false }
        },
        (
            SourceStep::CheckPending,
            Report::Pending { unfilled, unhandled, failed, danmaku },
        ) => if unfilled || unhandled || failed || danmaku {
            SourceStep::Details { again: false }
        } else {
            SourceStep::Succeed
        },
        (SourceStep::Details { again }, Report::Done) => if scan_only {
            SourceStep::Succeed
        } else {
            SourceStep::Download { again: false }
        },
        (SourceStep::Download { again }, Report::Done) => SourceStep::RetryFailed,
        (SourceStep::RetryFailed, _) => SourceStep::Succeed,
        (SourceStep::Succeed, _) => SourceStep::Succeed,
        _ => SourceStep::Fail,
    }
}

/// The step that follows another, by what came of it.
///
/// A failure of the last retry is not reported. Any other failure ends the run, unless it is the
/// first one of a stage and says that the account is not logged in.
pub open spec fn next_step(step: SourceStep, report: Report, scan_only: bool) -> SourceStep {
    match report {
        Report::Failed(failure) => match mendable_stage(step) {
            Some(stage) => after_failure(stage, failure),
            None => if step == SourceStep::RetryFailed || step == SourceStep::Succeed {
                SourceStep::Succeed
            } else {
                SourceStep::Fail
            },
        },
        _ => after_success(step, report, scan_only),
    }
}

fn failed_step(stage: Stage, failure: &Failure) -> (next: SourceStep)
    ensures
        next == after_failure(stage, *failure),
{
    if stage == Stage::Details && failure.abort {
        SourceStep::Fail
    } else if is_logged_out(failure.message.as_str()) {
        SourceStep::RefreshCredential { stage }
    } else {
        SourceStep::Fail
    }
}

/// The first step for a video source.
pub fn start_source() -> (step: SourceStep)
    ensures
        step == first_source_step(),
{
    SourceStep::Resolve { again: false }
}

/// The step that follows another, by what came of it. `scan_only` says that nothing is to be
/// downloaded.
pub fn advance_source(step: SourceStep, report: &Report, scan_only: bool) -> (next: SourceStep)
    ensures
        next == next_step(step, *report, scan_only),
{
    match report {
        Report::Failed(failure) => {
            match step {
                SourceStep::Resolve { again: false } => failed_step(Stage::Resolve, failure),
                SourceStep::Refresh { again: false } => failed_step(Stage::Refresh, failure),
                SourceStep::Details { again: false } => failed_step(Stage::Details, failure),
                SourceStep::Download { again: false } => failed_step(Stage::Download, failure),
                SourceStep::RetryFailed | SourceStep::Succeed => SourceStep::Succeed,
                _ => SourceStep::Fail,
            }
        },
        _ => {
            match (step, report) {
                (SourceStep::Resolve { again: _ }, Report::Done) => SourceStep::Refresh {
                    again: false,
                },
                (SourceStep::RefreshCredential { stage }, Report::Done) => {
                    match stage {
                        Stage::Resolve => SourceStep::Resolve { again: true },
                        Stage::Refresh => SourceStep::Reopen,
                        Stage::Details => SourceStep::Details { again: true },
                        Stage::Download => SourceStep::Download { again: true },
                    }
                },
                (SourceStep::Reopen, Report::Done) => SourceStep::Refresh { again: true },
                (SourceStep::Refresh { again: _ }, Report::Found(count)) => SourceStep::CheckHalt {
                    new_videos: *count,
                },
                (SourceStep::CheckHalt { new_videos }, Report::Halted(halted)) => {
                    if *halted {
                        SourceStep::Succeed
                    } else if new_videos == 0 {
                        SourceStep::CheckPending
                    } else {
                        SourceStep::Details { again: false }
                    }
                },
                (
                    SourceStep::CheckPending,
                    Report::Pending { unfilled, unhandled, failed, danmaku },
                ) => {
                    if *unfilled || *unhandled || *failed || *danmaku {
                        SourceStep::Details { again: false }
                    } else {
                        SourceStep::Succeed
                    }
                },
                (SourceStep::Details { again: _ }, Report::Done) => {
                    if scan_only {
                        SourceStep::Succeed
                    } else {
                        SourceStep::Download { again: false }
                    }
                },
                (SourceStep::Download { again: _ }, Report::Done) => SourceStep::RetryFailed,
                (SourceStep::RetryFailed, _) => SourceStep::Succeed,
                (SourceStep::Succeed, _) => SourceStep::Succeed,
                _ => SourceStep::Fail,
            }
        },
    }
}

/// The run is over.
pub open spec fn is_over(step: SourceStep) -> bool {
    step == SourceStep::Succeed || step == SourceStep::Fail
}

/// The number of steps that may still follow.
pub open spec fn steps_left(step: SourceStep) -> nat {
    match step {
        SourceStep::Resolve { again: false } => 16,
        SourceStep::RefreshCredential { stage: Stage::Resolve } => 15,
        SourceStep::Resolve { again: true } => 14,
        SourceStep::Refresh { again: false } => 13,
        SourceStep::RefreshCredential { stage: Stage::Refresh } => 12,
        SourceStep::Reopen => 11,
        SourceStep::Refresh { again: true } => 10,
        SourceStep::CheckHalt { new_videos } => 9,
        SourceStep::CheckPending => 8,
        SourceStep::Details { again: false } => 7,
        SourceStep::RefreshCredential { stage: Stage::Details } => 6,
        SourceStep::Details { again: true } => 5,
        SourceStep::Download { again: false } => 4,
        SourceStep::RefreshCredential { stage: Stage::Download } => 3,
        SourceStep::Download { again: true } => 2,
        SourceStep::RetryFailed => 1,
        SourceStep::Succeed => 0,
        SourceStep::Fail => 0,
    }
}

/// Every step comes nearer to the end, so that every run ends and no step is taken twice.
pub proof fn every_step_advances(step: SourceStep, report: Report, scan_only: bool)
    requires
        !is_over(step),
    ensures
        steps_left(next_step(step, report, scan_only)) < steps_left(step),
{
}

/// The step that is reached by what came of all steps so far.
pub open spec fn step_reached(reports: Seq<Report>, scan_only: bool) -> SourceStep
    decreases reports.len(),
{
    if reports.len() == 0 {
        first_source_step()
    } else {
        next_step(step_reached(reports.drop_last(), scan_only), reports.last(), scan_only)
    }
}

/// A run is over after 16 steps at the latest.
pub proof fn run_ends(reports: Seq<Report>, scan_only: bool)
    requires
        reports.len() >= 16,
    ensures
        is_over(step_reached(reports, scan_only)),
{
    steps_bound(reports, scan_only);
}

proof fn steps_bound(reports: Seq<Report>, scan_only: bool)
    ensures
        steps_left(step_reached(reports, scan_only)) + reports.len() <= 16 || is_over(
            step_reached(reports, scan_only),
        ),
    decreases reports.len(),
{
    if reports.len() > 0 {
        steps_bound(reports.drop_last(), scan_only);
        let before = step_reached(reports.drop_last(), scan_only);
        if !is_over(before) {
            every_step_advances(before, reports.last(), scan_only);
        }
    }
}

/// Once a run is over it stays as it ended.
pub proof fn end_is_final(step: SourceStep, report: Report, scan_only: bool)
    requires
        is_over(step),
    ensures
        next_step(step, report, scan_only) == step,
{
}

/// While only scanning, nothing is ever downloaded.
pub proof fn scan_only_downloads_nothing(reports: Seq<Report>)
    ensures
        !(step_reached(reports, true) is Download),
        !(step_reached(reports, true) is RetryFailed),
        step_reached(reports, true) != (SourceStep::RefreshCredential { stage: Stage::Download }),
    decreases reports.len(),
{
    if reports.len() > 0 {
        scan_only_downloads_nothing(reports.drop_last());
    }
}

/// When the platform refuses further requests while details are fetched, the run fails at once.
pub proof fn abort_in_details_fails(failure: Failure, again: bool, scan_only: bool)
    requires
        failure.abort,
    ensures
        next_step(SourceStep::Details { again }, Report::Failed(failure), scan_only)
            == SourceStep::Fail,
{
}

/// Credentials are refreshed only after the first failure of a stage, and only where that failure
/// says that the account is not logged in.
pub proof fn credentials_are_refreshed_on_demand(
    step: SourceStep,
    report: Report,
    scan_only: bool,
)
    requires
        next_step(step, report, scan_only) is RefreshCredential,
    ensures
        report is Failed,
        says_logged_out(report->Failed_0.message@),
        mendable_stage(step) == Some(
            next_step(step, report, scan_only)->RefreshCredential_stage,
        ),
{
}

/// A run without new videos goes on exactly where earlier runs left work of any of the four kinds:
/// videos without details, videos that are not downloaded, videos that failed, or comments.
pub proof fn pending_work_is_taken_up(
    unfilled: bool,
    unhandled: bool,
    failed: bool,
    danmaku: bool,
    scan_only: bool,
)
    ensures
        ({
            let next = next_step(
                SourceStep::CheckPending,
                Report::Pending { unfilled, unhandled, failed, danmaku },
                scan_only,
            );
            &&& next == SourceStep::Succeed <==> !unfilled && !unhandled && !failed && !danmaku
            &&& next != SourceStep::Succeed ==> next == (SourceStep::Details { again: false })
        }),
{
}

/// A pause ends the run after the list was read, whatever it brought. Otherwise new videos lead on to
/// their details, and a list without new videos to the work that earlier runs left.
pub proof fn new_videos_lead_on(new_videos: usize, halted: bool, scan_only: bool)
    ensures
        ({
            let next = next_step(
                SourceStep::CheckHalt { new_videos },
                Report::Halted(halted),
                scan_only,
            );
            &&& next == SourceStep::Succeed <==> halted
            &&& next == SourceStep::CheckPending <==> !halted && new_videos == 0
            &&& next == (SourceStep::Details { again: false }) <==> !halted && new_videos > 0
        }),
{
}

/// What is done is never done twice: when a stage succeeds the run goes on to the stage that follows
/// it, whether or not it was repeated. Without downloads it ends after the details.
pub proof fn stages_follow_each_other(again: bool, count: usize, scan_only: bool)
    ensures
        next_step(SourceStep::Resolve { again }, Report::Done, scan_only) == (SourceStep::Refresh {
            again: false,
        }),
        next_step(SourceStep::Refresh { again }, Report::Found(count), scan_only) == (
        SourceStep::CheckHalt { new_videos: count }),
        next_step(SourceStep::Reopen, Report::Done, scan_only) == (SourceStep::Refresh {
            again: true,
        }),
        next_step(SourceStep::Details { again }, Report::Done, true) == SourceStep::Succeed,
        next_step(SourceStep::Details { again }, Report::Done, false) == (SourceStep::Download {
            again: false,
        }),
        next_step(SourceStep::Download { again }, Report::Done, scan_only)
            == SourceStep::RetryFailed,
        next_step(SourceStep::RetryFailed, Report::Done, scan_only) == SourceStep::Succeed,
{
}

/// A stage that failed because the account is not logged in is repeated once: the credentials are
/// refreshed for it, and then that very stage comes again. The list is opened anew before it is read
/// again. When the platform refuses further requests while details are fetched, there is no repetition.
pub proof fn logged_out_stage_is_repeated(failure: Failure, scan_only: bool)
    requires
        says_logged_out(failure.message@),
        !failure.abort,
    ensures
        forall|step: SourceStep, stage: Stage|
            is_first_try(step, stage) ==> #[trigger] next_step(
                step,
                Report::Failed(failure),
                scan_only,
            ) == (#[trigger] refreshed_for(stage)),
        next_step(refreshed_for(Stage::Resolve), Report::Done, scan_only) == (SourceStep::Resolve {
            again: true,
        }),
        next_step(refreshed_for(Stage::Refresh), Report::Done, scan_only) == SourceStep::Reopen,
        next_step(refreshed_for(Stage::Details), Report::Done, scan_only) == (SourceStep::Details {
            again: true,
        }),
        next_step(refreshed_for(Stage::Download), Report::Done, scan_only) == (
        SourceStep::Download { again: true }),
{
}

/// The credentials are refreshed for this stage.
pub open spec fn refreshed_for(stage: Stage) -> SourceStep {
    SourceStep::RefreshCredential { stage }
}

/// The step carries out the stage for the first time.
pub open spec fn is_first_try(step: SourceStep, stage: Stage) -> bool {
    match stage {
        Stage::Resolve => step == (SourceStep::Resolve { again: false }),
        Stage::Refresh => step == (SourceStep::Refresh { again: false }),
        Stage::Details => step == (SourceStep::Details { again: false }),
        Stage::Download => step == (SourceStep::Download { again: false }),
    }
}

/// Any other failure ends the run with an error: one that says nothing of the account, one of a
/// repeated stage, and one of refreshing or of looking for work. Only a failure of the last retry is
/// not reported.
pub proof fn other_failures_end_the_run(step: SourceStep, failure: Failure, scan_only: bool)
    requires
        step != SourceStep::Succeed,
        !says_logged_out(failure.message@) || !(step == (SourceStep::Resolve { again: false })
            || step == (SourceStep::Refresh { again: false }) || step == (SourceStep::Details {
            again: false,
        }) || step == (SourceStep::Download { again: false })),
    ensures
        next_step(step, Report::Failed(failure), scan_only) == if step == SourceStep::RetryFailed {
            SourceStep::Succeed
        } else {
            SourceStep::Fail
        },
{
}

/// A run begins with loading its source.
pub proof fn run_begins_with_its_source(scan_only: bool)
    ensures
        step_reached(Seq::empty(), scan_only) == (SourceStep::Resolve { again: false }),
{
}

}
