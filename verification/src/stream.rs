//! Fetching the streams of a page: one file, or video and sound apart, which are then merged.

use vstd::prelude::*;

verus! {

/// What is to be done next about the streams of a page.
#[derive(Debug, Clone, Copy, PartialEq, Eq, Structural)]
pub enum StreamStep {
    /// Fetch the only stream.
    FetchWhole,
    /// Fetch the video to a temporary file.
    FetchVideo,
    /// Fetch the sound to a temporary file.
    FetchAudio,
    /// Merge the two.
    Merge,
    /// Remove the temporary file of the video.
    DropVideo,
    /// Remove both temporary files. `merged` says whether they were merged.
    DropBoth { merged: bool },
    /// The page is there.
    Succeeded,
    /// Report the last failure.
    Failed,
}

/// From this quality on a picture counts as a very fine one, which few videos have.
pub const FINE_QUALITY: u32 = 120;

/// From this gap on a quality is far below the one that was asked for.
pub const WIDE_GAP: u32 = 40;

/// What is said of the quality of a video.
#[derive(Debug, Clone, Copy, PartialEq, Eq, Structural)]
pub enum QualityNote {
    /// Nothing: it is as good as was asked for, or it is only not very fine.
    Silent,
    /// It is a little worse than was asked for.
    Inform,
    /// It is far worse than was asked for.
    Warn,
}

/// What is said of the quality of a video.
pub open spec fn note_on(requested: u32, got: u32) -> QualityNote {
    if got >= requested || (requested >= FINE_QUALITY && got < FINE_QUALITY) {
        QualityNote::Silent
    } else if requested - got >= WIDE_GAP {
        QualityNote::Warn
    } else {
        QualityNote::Inform
    }
}

/// What is said of the quality of a video: of the one that came, against the one that was asked for.
pub fn quality_note(requested: u32, got: u32) -> (note: QualityNote)
    ensures
        note == note_on(requested, got),
{
    if got >= requested || (requested >= FINE_QUALITY && got < FINE_QUALITY) {
        QualityNote::Silent
    } else if requested - got >= WIDE_GAP {
        QualityNote::Warn
    } else {
        QualityNote::Inform
    }
}

/// The ending of the temporary file of the video.
pub fn video_extension() -> (extension: &'static str)
    ensures
        extension@ == "tmp_video"@,
{
    "tmp_video"
}

/// The ending of the temporary file of the sound.
pub fn audio_extension() -> (extension: &'static str)
    ensures
        extension@ == "tmp_audio"@,
{
    "tmp_audio"
}

/// The first step. `apart` says whether video and sound come apart.
pub open spec fn first_stream_step(apart: bool) -> StreamStep {
    if apart {
        StreamStep::FetchVideo
    } else {
        StreamStep::FetchWhole
    }
}

/// The step that follows another. `done` says whether that one was carried out.
pub open spec fn stream_step_after(step: StreamStep, done: bool) -> StreamStep {
    match step {
        StreamStep::FetchWhole => if done {
            StreamStep::Succeeded
        } else {
            StreamStep::Failed
        },
        StreamStep::FetchVideo => if done {
            StreamStep::FetchAudio
        } else {
            StreamStep::Failed
        },
        StreamStep::FetchAudio => if done {
            StreamStep::Merge
        } else {
            StreamStep::DropVideo
        },
        StreamStep::Merge => StreamStep::DropBoth { merged: done },
        StreamStep::DropVideo => StreamStep::Failed,
        StreamStep::DropBoth { merged } => if merged {
            StreamStep::Succeeded
        } else {
            StreamStep::Failed
        },
        StreamStep::Succeeded => StreamStep::Succeeded,
        StreamStep::Failed => StreamStep::Failed,
    }
}

/// The first step. `apart` says whether video and sound come apart.
pub fn start_stream(apart: bool) -> (step: StreamStep)
    ensures
        step == first_stream_step(apart),
{
    if apart {
        StreamStep::FetchVideo
    } else {
        StreamStep::FetchWhole
    }
}

/// The step that follows another. `done` says whether that one was carried out; whether a temporary
/// file could be removed does not matter.
pub fn advance_stream(step: StreamStep, done: bool) -> (next: StreamStep)
    ensures
        next == stream_step_after(step, done),
{
    match step {
        StreamStep::FetchWhole => if done {
            StreamStep::Succeeded
        } else {
            StreamStep::Failed
        },
        StreamStep::FetchVideo => if done {
            StreamStep::FetchAudio
        } else {
            StreamStep::Failed
        },
        StreamStep::FetchAudio => if done {
            StreamStep::Merge
        } else {
            StreamStep::DropVideo
        },
        StreamStep::Merge => StreamStep::DropBoth { merged: done },
        StreamStep::DropVideo => StreamStep::Failed,
        StreamStep::DropBoth { merged } => if merged {
            StreamStep::Succeeded
        } else {
            StreamStep::Failed
        },
        StreamStep::Succeeded => StreamStep::Succeeded,
        StreamStep::Failed => StreamStep::Failed,
    }
}

/// The step that is reached when the steps so far went as `outcomes` says.
pub open spec fn stream_step_reached(apart: bool, outcomes: Seq<bool>) -> StreamStep
    decreases outcomes.len(),
{
    if outcomes.len() == 0 {
        first_stream_step(apart)
    } else {
        stream_step_after(stream_step_reached(apart, outcomes.drop_last()), outcomes.last())
    }
}

/// The work on the streams is over.
pub open spec fn is_stream_end(step: StreamStep) -> bool {
    step == StreamStep::Succeeded || step == StreamStep::Failed
}

proof fn streams_in_steps(outcomes: Seq<bool>)
    ensures
        outcomes.len() == 1 ==> stream_step_reached(false, outcomes) == if outcomes[0] {
            StreamStep::Succeeded
        } else {
            StreamStep::Failed
        },
        outcomes.len() == 1 ==> stream_step_reached(true, outcomes) == if outcomes[0] {
            StreamStep::FetchAudio
        } else {
            StreamStep::Failed
        },
        outcomes.len() == 2 && outcomes[0] ==> stream_step_reached(true, outcomes) == if outcomes[1] {
            StreamStep::Merge
        } else {
            StreamStep::DropVideo
        },
        outcomes.len() == 3 && outcomes[0] ==> stream_step_reached(true, outcomes) == if outcomes[1] {
            StreamStep::DropBoth { merged: outcomes[2] }
        } else {
            StreamStep::Failed
        },
        outcomes.len() >= 1 && !outcomes[0] ==> stream_step_reached(true, outcomes)
            == StreamStep::Failed,
    decreases outcomes.len(),
{
    if outcomes.len() > 0 {
        streams_in_steps(outcomes.drop_last());
    }
}

/// The work on the streams is over after four steps at the latest.
pub proof fn streams_end(apart: bool, outcomes: Seq<bool>)
    requires
        outcomes.len() >= 4,
    ensures
        is_stream_end(stream_step_reached(apart, outcomes)),
    decreases outcomes.len(),
{
    let front = outcomes.drop_last();
    if outcomes.len() > 4 {
        streams_end(apart, front);
    } else if apart {
        streams_in_steps(front);
    } else {
        let one = front.drop_last().drop_last();
        streams_in_steps(one);
        assert(is_stream_end(stream_step_reached(false, one)));
        assert(is_stream_end(stream_step_reached(false, front.drop_last())));
    }
}

/// A single stream succeeds exactly if it can be fetched.
pub proof fn single_stream_succeeds(outcome: bool)
    ensures
        stream_step_reached(false, seq![outcome]) == if outcome {
            StreamStep::Succeeded
        } else {
            StreamStep::Failed
        },
{
    streams_in_steps(seq![outcome]);
}

/// Streams that come apart succeed exactly if both can be fetched and merged.
pub proof fn apart_streams_succeed(outcomes: Seq<bool>)
    requires
        outcomes.len() == 4,
    ensures
        stream_step_reached(true, outcomes) == StreamStep::Succeeded <==> outcomes[0] && outcomes[1]
            && outcomes[2],
{
    streams_in_steps(outcomes.drop_last());
}

/// No temporary file is left behind: once the video was fetched, the work ends only after a step
/// that removes it, and once the sound was fetched too, only after one that removes both.
pub proof fn temporary_files_are_removed(outcomes: Seq<bool>)
    requires
        outcomes.len() >= 2,
        outcomes[0],
        is_stream_end(stream_step_reached(true, outcomes)),
    ensures
        exists|at: int|
            0 <= at < outcomes.len() && {
                let step = #[trigger] stream_step_reached(true, outcomes.take(at));
                if outcomes[1] {
                    step is DropBoth
                } else {
                    step == StreamStep::DropVideo
                }
            },
{
    let two = outcomes.take(2);
    streams_in_steps(two);
    if outcomes.len() == 2 {
        assert(two =~= outcomes);
    } else if outcomes[1] {
        let three = outcomes.take(3);
        streams_in_steps(three);
        if outcomes.len() == 3 {
            assert(three =~= outcomes);
        }
        assert(stream_step_reached(true, outcomes.take(3)) is DropBoth);
    } else {
        assert(stream_step_reached(true, outcomes.take(2)) == StreamStep::DropVideo);
    }
}

/// Nothing is said of a quality that is as good as was asked for, however good that is; nor of one
/// that only lacks the finest picture.
pub proof fn good_quality_is_not_mentioned(requested: u32, got: u32)
    ensures
        got >= requested ==> note_on(requested, got) == QualityNote::Silent,
        requested >= 120 && got < 120 ==> note_on(requested, got) == QualityNote::Silent,
{
}

/// Of a quality that is worse than was asked for something is said, and from a gap of forty on it is
/// a warning; a worse quality is never said less of.
pub proof fn worse_quality_is_mentioned(requested: u32, got: u32, worse: u32)
    requires
        got < requested,
        requested < 120 || got >= 120,
    ensures
        note_on(requested, got) == QualityNote::Warn <==> requested - got >= 40,
        note_on(requested, got) == QualityNote::Inform <==> requested - got < 40,
        worse < got && note_on(requested, got) == QualityNote::Warn && (requested < 120 || worse
            >= 120) ==> note_on(requested, worse) == QualityNote::Warn,
{
}

/// Where video and sound come apart, the sound is fetched after the video and the two are merged after
/// the sound; where they do not, there is nothing to merge.
pub proof fn streams_are_fetched_in_turn()
    ensures
        stream_step_reached(true, Seq::empty()) == StreamStep::FetchVideo,
        stream_step_reached(false, Seq::empty()) == StreamStep::FetchWhole,
        stream_step_after(StreamStep::FetchVideo, true) == StreamStep::FetchAudio,
        stream_step_after(StreamStep::FetchAudio, true) == StreamStep::Merge,
        stream_step_after(StreamStep::FetchWhole, true) == StreamStep::Succeeded,
{
}

/// What was fetched is removed whether or not the two could be merged, and whether it could be removed
/// does not change how the work ends.
pub proof fn removal_does_not_decide(done: bool, merged: bool)
    ensures
        stream_step_after(StreamStep::Merge, merged) is DropBoth,
        stream_step_after(stream_step_after(StreamStep::Merge, merged), done) == if merged {
            StreamStep::Succeeded
        } else {
            StreamStep::Failed
        },
        stream_step_after(StreamStep::FetchAudio, false) == StreamStep::DropVideo,
        stream_step_after(StreamStep::DropVideo, done) == StreamStep::Failed,
        stream_step_after(StreamStep::FetchVideo, false) == StreamStep::Failed,
{
}

}
