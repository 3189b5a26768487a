//! What the message of a failed task tells about its cause.

use vstd::prelude::*;

use crate::text::{contains, occurs, occurs_at};

verus! {

/// The kinds of failures that are treated differently.
#[derive(Debug, Clone, Copy, PartialEq, Eq, Structural)]
pub enum ErrorType {
    NotFound,
    Permission,
    Network,
    Timeout,
    RateLimit,
    RiskControl,
    UserCancelled,
    Other,
}

/// A task that failed.
#[derive(Debug, Clone)]
pub struct Failure {
    /// What the failure says.
    pub message: String,
    /// The platform refuses further requests, so that all downloads have to stop.
    pub abort: bool,
}

/// The account is not logged in any more.
pub open spec fn says_logged_out(message: Seq<char>) -> bool {
    occurs(message, "status code: -101"@) || occurs(message, "账号未登录"@)
}

/// The task was cancelled.
pub open spec fn says_cancelled(message: Seq<char>) -> bool {
    occurs(message, "Download cancelled"@)
}

/// The user paused the task. A cancelled task counts as paused while tasks are `paused`.
pub open spec fn says_paused(message: Seq<char>, paused: bool) -> bool {
    ||| occurs(message, "任务已暂停"@)
    ||| occurs(message, "停止下载"@)
    ||| occurs(message, "用户主动暂停任务"@)
    ||| (says_cancelled(message) && paused)
}

/// The downloaded streams are damaged.
pub open spec fn says_damaged(message: Seq<char>) -> bool {
    ||| occurs(message, "Invalid data found when processing input"@)
    ||| occurs(message, "ffmpeg error"@)
    ||| occurs(message, "文件损坏"@)
}

/// Whether the account is not logged in any more, so that its credentials have to be refreshed.
pub fn is_logged_out(message: &str) -> (answer: bool)
    ensures
        answer == says_logged_out(message@),
{
    contains(message, "status code: -101") || contains(message, "账号未登录")
}

/// Whether the task was cancelled.
pub fn is_cancelled(message: &str) -> (answer: bool)
    ensures
        answer == says_cancelled(message@),
{
    contains(message, "Download cancelled")
}

/// Whether the user paused the task.
pub fn is_paused(message: &str, paused: bool) -> (answer: bool)
    ensures
        answer == says_paused(message@, paused),
{
    contains(message, "任务已暂停") || contains(message, "停止下载") || contains(
        message,
        "用户主动暂停任务",
    ) || (is_cancelled(message) && paused)
}

/// Whether the downloaded streams are damaged.
pub fn is_damaged(message: &str) -> (answer: bool)
    ensures
        answer == says_damaged(message@),
{
    contains(message, "Invalid data found when processing input") || contains(
        message,
        "ffmpeg error",
    ) || contains(message, "文件损坏")
}

/// A phrase that stands anywhere in a message occurs in it.
proof fn phrase_occurs(before: Seq<char>, phrase: Seq<char>, after: Seq<char>)
    ensures
        occurs(before + phrase + after, phrase),
{
    let whole = before + phrase + after;
    let at = before.len() as int;
    assert(whole.subrange(at, at + phrase.len()) =~= phrase);
    assert(occurs_at(whole, phrase, at));
}

/// A message that holds the code or the phrase of a lost login says so, whatever stands around it.
pub proof fn lost_login_is_noticed(before: Seq<char>, after: Seq<char>)
    ensures
        says_logged_out(before + "status code: -101"@ + after),
        says_logged_out(before + "账号未登录"@ + after),
{
    phrase_occurs(before, "status code: -101"@, after);
    phrase_occurs(before, "账号未登录"@, after);
}

/// A message that holds one of the phrases of a pause says so, whether or not tasks are paused now. A
/// cancellation counts as a pause only while they are.
pub proof fn pause_is_noticed(before: Seq<char>, after: Seq<char>, paused: bool)
    ensures
        says_paused(before + "任务已暂停"@ + after, paused),
        says_paused(before + "停止下载"@ + after, paused),
        says_paused(before + "用户主动暂停任务"@ + after, paused),
        says_cancelled(before + "Download cancelled"@ + after),
        says_paused(before + "Download cancelled"@ + after, true),
{
    phrase_occurs(before, "任务已暂停"@, after);
    phrase_occurs(before, "停止下载"@, after);
    phrase_occurs(before, "用户主动暂停任务"@, after);
    phrase_occurs(before, "Download cancelled"@, after);
}

/// A message that holds one of the phrases of damaged streams says so.
pub proof fn damage_is_noticed(before: Seq<char>, after: Seq<char>)
    ensures
        says_damaged(before + "Invalid data found when processing input"@ + after),
        says_damaged(before + "ffmpeg error"@ + after),
        says_damaged(before + "文件损坏"@ + after),
{
    phrase_occurs(before, "Invalid data found when processing input"@, after);
    phrase_occurs(before, "ffmpeg error"@, after);
    phrase_occurs(before, "文件损坏"@, after);
}

/// A message without any of the phrases says nothing of the kind.
pub proof fn other_messages_say_nothing(message: Seq<char>, paused: bool)
    ensures
        !occurs(message, "status code: -101"@) && !occurs(message, "账号未登录"@)
            ==> !says_logged_out(message),
        !occurs(message, "Download cancelled"@) ==> !says_cancelled(message),
        !occurs(message, "任务已暂停"@) && !occurs(message, "停止下载"@) && !occurs(
            message,
            "用户主动暂停任务"@,
        ) ==> (says_paused(message, paused) <==> paused && occurs(message, "Download cancelled"@)),
        !occurs(message, "Invalid data found when processing input"@) && !occurs(
            message,
            "ffmpeg error"@,
        ) && !occurs(message, "文件损坏"@) ==> !says_damaged(message),
{
}

}
