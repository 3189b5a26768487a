//! Delivering messages through the push service.

use vstd::prelude::*;

use crate::decimal::{decimal_int, i32_reads_back, i32_value, parse_i32};
use crate::notification::ScanSummary;
use crate::scan_message::{
    format_scan_message, message_body, total_covers_shown, try_format_scan_message,
};

verus! {

/// When and how notifications are sent.
#[derive(Debug, Clone)]
pub struct NotificationConfig {
    pub enable_scan_notifications: bool,
    pub serverchan_key: Option<String>,
    pub notification_min_videos: usize,
    pub notification_timeout: u64,
    pub notification_retry_count: u32,
}

/// A message on its way, with the key of the account that it goes to.
#[derive(Debug, Clone)]
pub struct Push {
    pub key: String,
    pub title: String,
    pub content: String,
}

/// What is to be done about a finished scan.
#[derive(Debug, Clone)]
pub enum ScanPush {
    /// Notifications are switched off.
    Disabled,
    /// The scan found fewer videos than are worth a message.
    BelowThreshold,
    /// No account is configured.
    NoKey,
    /// The message is to be sent.
    Send(Push),
}

/// A scan is reported: notifications are on, it found enough, and an account is configured.
pub open spec fn is_reported(config: NotificationConfig, summary: ScanSummary) -> bool {
    &&& config.enable_scan_notifications
    &&& summary.total_new_videos >= config.notification_min_videos
    &&& config.serverchan_key is Some
}

/// The message is on its way to the account with the given title and content.
pub open spec fn is_push(push: Push, key: Seq<char>, title: Seq<char>, content: Seq<char>) -> bool {
    push.key@ == key && push.title@ == title && push.content@ == content
}

/// Decides what is to be done about a finished scan, and writes the message if there is to be one.
/// `minutes` is the duration of the scan in minutes, as it is to be shown.
pub fn scan_push(config: &NotificationConfig, summary: &ScanSummary, minutes: &str) -> (decision:
    ScanPush)
    requires
        is_reported(*config, *summary) ==> total_covers_shown(*summary, minutes@),
    ensures
        decision is Disabled <==> !config.enable_scan_notifications,
        decision is BelowThreshold <==> config.enable_scan_notifications
            && summary.total_new_videos < config.notification_min_videos,
        decision is NoKey <==> config.enable_scan_notifications && summary.total_new_videos
            >= config.notification_min_videos && config.serverchan_key is None,
        decision is Send <==> is_reported(*config, *summary),
        decision matches ScanPush::Send(push) ==> is_push(
            push,
            config.serverchan_key->0@,
            "Bili Sync 扫描完成"@,
            message_body(*summary, minutes@),
        ),
{
    if !config.enable_scan_notifications {
        return ScanPush::Disabled;
    }
    if summary.total_new_videos < config.notification_min_videos {
        return ScanPush::BelowThreshold;
    }
    match &config.serverchan_key {
        None => ScanPush::NoKey,
        Some(key) => {
            let (title, content) = format_scan_message(summary, minutes);
            ScanPush::Send(Push { key: key.clone(), title, content })
        },
    }
}

/// Decides what is to be done about a finished scan, and writes the message if there is to be one.
/// There is no answer where a message is due and its total number of new videos is below the number
/// of those that it would show.
pub fn try_scan_push(config: &NotificationConfig, summary: &ScanSummary, minutes: &str) -> (decision:
    Option<ScanPush>)
    ensures
        decision is None <==> is_reported(*config, *summary) && !total_covers_shown(
            *summary,
            minutes@,
        ),
        decision matches Some(chosen) ==> {
            &&& chosen is Disabled <==> !config.enable_scan_notifications
            &&& chosen is BelowThreshold <==> config.enable_scan_notifications
                && summary.total_new_videos < config.notification_min_videos
            &&& chosen is NoKey <==> config.enable_scan_notifications && summary.total_new_videos
                >= config.notification_min_videos && config.serverchan_key is None
            &&& chosen is Send <==> is_reported(*config, *summary)
            &&& chosen matches ScanPush::Send(push) ==> is_push(
                push,
                config.serverchan_key->0@,
                "Bili Sync 扫描完成"@,
                message_body(*summary, minutes@),
            )
        },
{
    let reported: bool = config.enable_scan_notifications && summary.total_new_videos
        >= config.notification_min_videos && config.serverchan_key.is_some();
    if reported && try_format_scan_message(summary, minutes).is_none() {
        return None;
    }
    Some(scan_push(config, summary, minutes))
}

/// The next step in delivering a message.
#[derive(Debug, Clone, Copy, PartialEq, Eq, Structural)]
pub enum PushStep {
    /// Send the message for the `number`-th time, after the delay if `delayed`.
    Attempt { number: u32, delayed: bool },
    /// Stop; `delivered` says whether the message arrived.
    Finished { delivered: bool },
}

/// The delay before an attempt that follows a failed one, in seconds.
pub const PUSH_RETRY_DELAY: u64 = 2;

/// The step that delivering starts with.
pub open spec fn first_step(retry_count: u32) -> PushStep {
    if retry_count == 0 {
        PushStep::Finished { delivered: false }
    } else {
        PushStep::Attempt { number: 1, delayed: false }
    }
}

/// The step that follows an attempt.
pub open spec fn step_after(number: u32, retry_count: u32, delivered: bool) -> PushStep {
    if delivered {
        PushStep::Finished { delivered: true }
    } else if number < retry_count {
        PushStep::Attempt { number: (number + 1) as u32, delayed: true }
    } else {
        PushStep::Finished { delivered: false }
    }
}

/// The step that delivering starts with.
pub fn first_push_step(retry_count: u32) -> (step: PushStep)
    ensures
        step == first_step(retry_count),
{
    if retry_count == 0 {
        PushStep::Finished { delivered: false }
    } else {
        PushStep::Attempt { number: 1, delayed: false }
    }
}

/// The step that follows the `number`-th attempt.
pub fn next_push_step(number: u32, retry_count: u32, delivered: bool) -> (step: PushStep)
    ensures
        step == step_after(number, retry_count, delivered),
{
    if delivered {
        PushStep::Finished { delivered: true }
    } else if number < retry_count {
        PushStep::Attempt { number: number + 1, delayed: true }
    } else {
        PushStep::Finished { delivered: false }
    }
}

/// The step that is reached when the attempts so far went as `outcomes` says. Outcomes of attempts
/// that are not made do not count.
pub open spec fn step_reached(retry_count: u32, outcomes: Seq<bool>) -> PushStep
    decreases outcomes.len(),
{
    if outcomes.len() == 0 {
        first_step(retry_count)
    } else {
        match step_reached(retry_count, outcomes.drop_last()) {
            PushStep::Attempt { number, delayed } => step_after(
                number,
                retry_count,
                outcomes.last(),
            ),
            finished => finished,
        }
    }
}

/// As long as every attempt fails, the message is sent again until the attempts are used up; every
/// attempt but the first waits. Then delivering stops.
pub proof fn failing_attempts_are_repeated(retry_count: u32, outcomes: Seq<bool>)
    requires
        forall|i: int| 0 <= i < outcomes.len() ==> !outcomes[i],
    ensures
        outcomes.len() < retry_count ==> step_reached(retry_count, outcomes) == (PushStep::Attempt {
            number: (outcomes.len() + 1) as u32,
            delayed: outcomes.len() > 0,
        }),
        outcomes.len() >= retry_count ==> step_reached(retry_count, outcomes) == (
        PushStep::Finished { delivered: false }),
    decreases outcomes.len(),
{
    if outcomes.len() > 0 {
        let before = outcomes.drop_last();
        assert forall|i: int| 0 <= i < before.len() implies !before[i] by {
            assert(before[i] == outcomes[i]);
        }
        failing_attempts_are_repeated(retry_count, before);
        assert(!outcomes[outcomes.len() - 1]);
    }
}

/// The first attempt that succeeds ends the delivery with success.
pub proof fn success_ends_delivery(retry_count: u32, failures: Seq<bool>, rest: Seq<bool>)
    requires
        forall|i: int| 0 <= i < failures.len() ==> !failures[i],
        failures.len() < retry_count,
    ensures
        step_reached(retry_count, failures.push(true) + rest) == (PushStep::Finished {
            delivered: true,
        }),
    decreases rest.len(),
{
    let outcomes = failures.push(true) + rest;
    if rest.len() == 0 {
        failing_attempts_are_repeated(retry_count, failures);
        assert(outcomes.drop_last() =~= failures);
    } else {
        success_ends_delivery(retry_count, failures, rest.drop_last());
        assert(outcomes.drop_last() =~= failures.push(true) + rest.drop_last());
    }
}

/// The address that messages for an account are posted to.
pub open spec fn push_address(key: Seq<char>) -> Seq<char> {
    "https://sctapi.ftqq.com/"@ + key + ".send"@
}

/// The address that messages for an account are posted to.
pub fn serverchan_url(key: &str) -> (url: String)
    ensures
        url@ == push_address(key@),
{
    let mut url = "https://sctapi.ftqq.com/".to_owned();
    url.append(key);
    url.append(".send");
    url
}

/// The code in a reply of the push service, as it stands in the JSON text.
#[derive(Debug, Clone)]
pub enum CodeValue {
    /// A number that a signed 64-bit integer can hold.
    Integer(i64),
    /// Any other number.
    OtherNumber,
    /// A string.
    Text(String),
    /// Anything else.
    Other,
}

/// The code that a value stands for.
pub open spec fn code_of(value: CodeValue) -> Option<i32> {
    match value {
        CodeValue::Integer(number) => if i32::MIN <= number <= i32::MAX {
            Some(number as i32)
        } else {
            None
        },
        CodeValue::Text(text) => i32_value(text@),
        _ => None,
    }
}

/// What is said of a value that is no code.
pub open spec fn code_complaint(value: CodeValue) -> Seq<char> {
    match value {
        CodeValue::Integer(_) => "code is not a valid i32"@,
        CodeValue::OtherNumber => "code is not a valid i32"@,
        CodeValue::Text(text) => "code string '"@ + text@ + "' is not a valid i32"@,
        CodeValue::Other => "code must be a number or string"@,
    }
}

/// Reads the code of a reply, which may be a number or a string.
pub fn deserialize_code(value: &CodeValue) -> (code: Result<i32, String>)
    ensures
        code is Ok <==> code_of(*value) is Some,
        code matches Ok(number) ==> code_of(*value) == Some(number),
        code matches Err(complaint) ==> complaint@ == code_complaint(*value),
{
    match value {
        CodeValue::Integer(number) => {
            let number: i64 = *number;
            if -2147483648 <= number && number <= 2147483647 {
                Ok(number as i32)
            } else {
                Err("code is not a valid i32".to_owned())
            }
        },
        CodeValue::OtherNumber => Err("code is not a valid i32".to_owned()),
        CodeValue::Text(text) => {
            match parse_i32(text.as_str()) {
                Some(number) => Ok(number),
                None => {
                    let mut complaint = "code string '".to_owned();
                    complaint.append(text.as_str());
                    complaint.append("' is not a valid i32");
                    Err(complaint)
                },
            }
        },
        CodeValue::Other => Err("code must be a number or string".to_owned()),
    }
}

/// Judges a reply of the push service: the code zero means that the message arrived.
pub fn judge_reply(code: i32, message: &str) -> (verdict: Result<(), String>)
    ensures
        verdict is Ok <==> code == 0,
        verdict matches Err(complaint) ==> complaint@ == "Server酱返回错误: "@ + message@,
{
    if code == 0 {
        Ok(())
    } else {
        let mut complaint = "Server酱返回错误: ".to_owned();
        complaint.append(message);
        Err(complaint)
    }
}

/// What is said of a reply that cannot be read.
pub fn unreadable_reply(problem: &str, reply: &str) -> (complaint: String)
    ensures
        complaint@ == "解析响应失败: "@ + problem@ + ", 响应内容: "@ + reply@,
{
    let mut complaint = "解析响应失败: ".to_owned();
    complaint.append(problem);
    complaint.append(", 响应内容: ");
    complaint.append(reply);
    complaint
}

/// The message by which the configuration is tried out, or the complaint that no account is
/// configured.
pub fn test_push(config: &NotificationConfig) -> (push: Result<Push, String>)
    ensures
        push is Ok <==> config.serverchan_key is Some,
        push matches Ok(p) ==> is_push(
            p,
            config.serverchan_key->0@,
            "Bili Sync 测试推送"@,
            "这是一条测试推送消息，如果您收到此消息，说明推送配置正确。\n\n🎉 推送功能工作正常！"@,
        ),
        push matches Err(complaint) ==> complaint@ == "未配置Server酱密钥"@,
{
    match &config.serverchan_key {
        None => Err("未配置Server酱密钥".to_owned()),
        Some(key) => Ok(
            Push {
                key: key.clone(),
                title: "Bili Sync 测试推送".to_owned(),
                content:
                    "这是一条测试推送消息，如果您收到此消息，说明推送配置正确。\n\n🎉 推送功能工作正常！".to_owned(),
            },
        ),
    }
}

/// A message of the user's own, or the complaint that no account is configured.
pub fn custom_test_push(config: &NotificationConfig, message: &str) -> (push: Result<Push, String>)
    ensures
        push is Ok <==> config.serverchan_key is Some,
        push matches Ok(p) ==> is_push(
            p,
            config.serverchan_key->0@,
            "Bili Sync 自定义测试推送"@,
            "🧪 **自定义测试消息**\n\n"@ + message@,
        ),
        push matches Err(complaint) ==> complaint@ == "未配置Server酱密钥"@,
{
    match &config.serverchan_key {
        None => Err("未配置Server酱密钥".to_owned()),
        Some(key) => {
            let mut content = "🧪 **自定义测试消息**\n\n".to_owned();
            content.append(message);
            Ok(Push { key: key.clone(), title: "Bili Sync 自定义测试推送".to_owned(), content })
        },
    }
}

/// A scan is reported exactly where notifications are on, the scan found as many videos as are worth a
/// message, and an account is configured; one video more never keeps a report back.
pub proof fn enough_videos_are_reported(config: NotificationConfig, fewer: ScanSummary, more: ScanSummary)
    requires
        fewer.total_new_videos <= more.total_new_videos,
    ensures
        is_reported(config, fewer) ==> is_reported(config, more),
        config.enable_scan_notifications && config.serverchan_key is Some ==> (is_reported(
            config,
            more,
        ) <==> more.total_new_videos >= config.notification_min_videos),
        !config.enable_scan_notifications || config.serverchan_key is None ==> !is_reported(
            config,
            more,
        ),
{
}

/// A message goes to its account under its title and with its content, and to no other place.
pub proof fn message_goes_to_its_account(push: Push, key: Seq<char>, title: Seq<char>, content: Seq<char>)
    requires
        is_push(push, key, title, content),
    ensures
        push.key@ == key,
        push.title@ == title,
        push.content@ == content,
        push_address(push.key@) == "https://sctapi.ftqq.com/"@ + key + ".send"@,
{
}

/// A message is sent at most as often as the user set, and not at all where that is zero; the waits
/// between take two seconds.
pub proof fn attempts_are_counted(number: u32, retry_count: u32)
    ensures
        step_reached(retry_count, Seq::empty()) == if retry_count == 0 {
            PushStep::Finished { delivered: false }
        } else {
            PushStep::Attempt { number: 1, delayed: false }
        },
        step_after(number, retry_count, true) == (PushStep::Finished { delivered: true }),
        step_after(number, retry_count, false) is Attempt <==> number < retry_count,
        PUSH_RETRY_DELAY == 2,
{
}

/// A code is the same number whether it comes as a number or as a text.
pub proof fn codes_are_read_alike(number: i32, text: String)
    requires
        text@ == decimal_int(number as int),
    ensures
        code_of(CodeValue::Integer(number as i64)) == Some(number),
        code_of(CodeValue::Text(text)) == Some(number),
{
    i32_reads_back(number);
}

/// A number that does not fit is no code, nor is anything but a number or a text; what is said of it
/// tells the cases apart and names the text.
pub proof fn other_values_are_no_codes(number: i64, text: String)
    ensures
        number > 2147483647 || number < -2147483648 ==> code_of(CodeValue::Integer(number)) is None,
        code_of(CodeValue::OtherNumber) is None,
        code_of(CodeValue::Other) is None,
        code_of(CodeValue::Text(text)) == i32_value(text@),
        code_complaint(CodeValue::Integer(number)) == "code is not a valid i32"@,
        code_complaint(CodeValue::OtherNumber) == "code is not a valid i32"@,
        code_complaint(CodeValue::Text(text)) == "code string '"@ + text@ + "' is not a valid i32"@,
        code_complaint(CodeValue::Other) == "code must be a number or string"@,
{
}

}
