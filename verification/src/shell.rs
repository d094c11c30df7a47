//! The decisions of the interactive form and of the command line: what a click
//! leads to, what the status line says, and when the window closes.
//!
//! The form itself, its worker and its clock belong to the caller. It reports
//! what happened and does what it is told.

use vstd::prelude::*;
use vstd::string::*;
use crate::installer::{failure_text, plan_restore, restore_steps, Failure, Plan, Verdict};
use crate::netinfo::HostIdentity;
use crate::text::{contains_text, has_substring};
use crate::watermark::WatermarkRequest;

verus! {

/// The window closes this many seconds after a success.
pub const CLOSE_AFTER_SECS: u64 = 5;

/// What the status line reports.
#[derive(Clone, Debug, PartialEq, Eq)]
pub enum Status {
    /// Nothing has happened yet.
    Ready,
    /// The worker is asking the operating system for the addresses again.
    Refreshing,
    /// The worker is composing and installing.
    Working,
    /// The watermark is installed.
    Applied,
    /// The backup is shown again.
    Restored,
    /// The run failed.
    Failed(Failure),
    /// Apply was asked for with nothing to show.
    NothingRequested,
    /// The form was cleared.
    Reset,
    /// Restore was asked for, and there is no backup.
    NoBackup,
}

/// The state of the form.
#[derive(Clone, Debug, PartialEq, Eq)]
pub struct Session {
    pub request: WatermarkRequest,
    pub status: Status,
    /// The countdown to closing the window is running.
    pub closing: bool,
    /// A worker is in flight.
    pub busy: bool,
}

/// What a click on Apply leads to.
#[derive(Clone, Copy, Debug, PartialEq, Eq, Structural)]
pub enum ApplyDecision {
    /// A worker is in flight; the click is ignored.
    Ignore,
    /// The request shows nothing; no worker starts.
    Reject,
    /// A worker starts. It asks for the addresses again first if `refresh` is set.
    Start { refresh: bool },
}

/// What the form does after drawing a frame.
#[derive(Clone, Copy, Debug, PartialEq, Eq, Structural)]
pub enum FrameAction {
    /// Wait for input.
    Idle,
    /// Draw again in a tenth of a second.
    RepaintSoon,
    /// Close the window.
    Close,
}

/// One frame of the form.
#[derive(Clone, Debug, PartialEq, Eq)]
pub struct Frame {
    /// The text of the status line.
    pub message: String,
    pub action: FrameAction,
    /// The countdown starts with this frame: the caller starts its clock.
    pub countdown_started: bool,
}

/// The part of both placeholders that tells them from an address.
pub open spec fn placeholder_marker() -> Seq<char> {
    "未发现"@
}

/// One of the entries is an address and not a placeholder.
pub open spec fn has_address(list: Seq<Seq<char>>) -> bool {
    exists|i: int| 0 <= i < list.len() && !has_substring(#[trigger] list[i], placeholder_marker())
}

/// The identity holds an address, so it need not be asked for again.
pub open spec fn has_live_addresses(id: HostIdentity) -> bool {
    has_address(id.ip_addresses.deep_view()) || has_address(id.mac_addresses.deep_view())
}

/// An argument that asks for an unattended run.
pub open spec fn is_quiet_flag(arg: Seq<char>) -> bool {
    arg == "-q"@ || arg == "/q"@ || arg == "q"@
}

/// The seconds left before the window closes, as text.
pub open spec fn seconds_text(left: int) -> Seq<char> {
    if left == 1 {
        "1"@
    } else if left == 2 {
        "2"@
    } else if left == 3 {
        "3"@
    } else if left == 4 {
        "4"@
    } else {
        "5"@
    }
}

/// The text of a status while no countdown is shown.
pub open spec fn status_text(status: Status) -> Seq<char> {
    match status {
        Status::Ready => "就绪"@,
        Status::Refreshing => "正在刷新网络信息..."@,
        Status::Working => "正在处理..."@,
        Status::Applied => "应用成功！"@,
        Status::Restored => "还原成功！"@,
        Status::Failed(failure) => "失败："@ + failure_text(failure),
        Status::NothingRequested => "错误：请至少勾选一项信息或填写备注"@,
        Status::Reset => "配置已重置"@,
        Status::NoBackup => "没有可还原的备份"@,
    }
}

/// The status is a success, after which the window closes by itself.
pub open spec fn is_success(status: Status) -> bool {
    status is Applied || status is Restored
}

/// The text of the status line. During the countdown a success is followed by
/// the seconds that are left.
pub open spec fn frame_text(status: Status, counting: bool, elapsed: int) -> Seq<char> {
    if counting && elapsed < CLOSE_AFTER_SECS && is_success(status) {
        status_text(status) + " "@ + seconds_text(CLOSE_AFTER_SECS - elapsed) + " 秒后自动退出..."@
    } else {
        status_text(status)
    }
}

/// What the form does after a frame.
pub open spec fn frame_action(counting: bool, elapsed: int) -> FrameAction {
    if !counting {
        FrameAction::Idle
    } else if elapsed >= CLOSE_AFTER_SECS {
        FrameAction::Close
    } else {
        FrameAction::RepaintSoon
    }
}

/// Tells whether the command line asks for an unattended run: one of its
/// arguments is `-q`, `/q` or `q`, in exactly this spelling.
pub fn is_quiet(args: &Vec<String>) -> (quiet: bool)
    ensures
        quiet == exists|i: int| 0 <= i < args.len() && is_quiet_flag(#[trigger] args.deep_view()[i]),
{
    let mut i: usize = 0;
    while i < args.len()
        invariant
            i <= args.len(),
            forall|k: int| 0 <= k < i ==> !is_quiet_flag(#[trigger] args.deep_view()[k]),
        decreases args.len() - i,
    {
        let arg = &args[i];
        proof {
            assert(args.deep_view()[i as int] == arg@);
        }
        if *arg == String::from_str("-q") || *arg == String::from_str("/q") || *arg == String::from_str("q") {
            return true;
        }
        i = i + 1;
    }
    false
}

/// Tells whether one of the entries is an address and not a placeholder.
pub fn holds_address(list: &Vec<String>) -> (found: bool)
    ensures
        found == has_address(list.deep_view()),
{
    let mut i: usize = 0;
    while i < list.len()
        invariant
            i <= list.len(),
            forall|k: int| 0 <= k < i ==> has_substring(#[trigger] list.deep_view()[k], placeholder_marker()),
        decreases list.len() - i,
    {
        proof {
            assert(list.deep_view()[i as int] == list[i as int]@);
        }
        if !contains_text(list[i].as_str(), "未发现") {
            return true;
        }
        i = i + 1;
    }
    false
}

/// Tells whether the identity holds an address. Where it holds none, a run
/// asks the operating system again before it composes.
pub fn identity_is_live(id: &HostIdentity) -> (live: bool)
    ensures
        live == has_live_addresses(*id),
{
    holds_address(&id.ip_addresses) || holds_address(&id.mac_addresses)
}

/// The seconds left before the window closes, as text.
fn seconds_label(left: u64) -> (text: &'static str)
    ensures
        text@ == seconds_text(left as int),
{
    if left == 1 {
        "1"
    } else if left == 2 {
        "2"
    } else if left == 3 {
        "3"
    } else if left == 4 {
        "4"
    } else {
        "5"
    }
}

impl Status {
    /// Tells whether the status is a success.
    pub fn is_success(&self) -> (success: bool)
        ensures
            success == is_success(*self),
    {
        match self {
            Status::Applied => true,
            Status::Restored => true,
            _ => false,
        }
    }

    /// The text of the status while no countdown is shown.
    pub fn text(&self) -> (text: String)
        ensures
            text@ == status_text(*self),
    {
        match self {
            Status::Ready => String::from_str("就绪"),
            Status::Refreshing => String::from_str("正在刷新网络信息..."),
            Status::Working => String::from_str("正在处理..."),
            Status::Applied => String::from_str("应用成功！"),
            Status::Restored => String::from_str("还原成功！"),
            Status::Failed(failure) => {
                let mut text = String::from_str("失败：");
                text.append(failure.message().as_str());
                text
            },
            Status::NothingRequested => String::from_str("错误：请至少勾选一项信息或填写备注"),
            Status::Reset => String::from_str("配置已重置"),
            Status::NoBackup => String::from_str("没有可还原的备份"),
        }
    }
}

impl Session {
    /// The form as it opens: the three identity fields ticked, no remark.
    pub fn new() -> (session: Session)
        ensures
            session.request.show_hostname && session.request.show_ip && session.request.show_mac,
            session.request.remark@.len() == 0,
            session.status is Ready,
            !session.closing,
            !session.busy,
    {
        Session { request: WatermarkRequest::unattended(), status: Status::Ready, closing: false, busy: false }
    }

    /// A click on Apply. While a worker is in flight the click changes
    /// nothing. Otherwise the countdown stops; a request that shows nothing is
    /// turned down, and any other starts a worker. `live` tells whether the
    /// identity at hand holds an address.
    pub fn on_apply(&mut self, live: bool) -> (decision: ApplyDecision)
        ensures
            final(self).request == old(self).request,
            old(self).busy ==> decision == ApplyDecision::Ignore && *final(self) == *old(self),
            !old(self).busy ==> !final(self).closing,
            !old(self).busy && !old(self).request.has_content() ==> {
                &&& decision == ApplyDecision::Reject
                &&& final(self).status is NothingRequested
                &&& !final(self).busy
            },
            !old(self).busy && old(self).request.has_content() ==> {
                &&& decision == (ApplyDecision::Start { refresh: !live })
                &&& final(self).busy
                &&& if live {
                    final(self).status is Working
                } else {
                    final(self).status is Refreshing
                }
            },
    {
        if self.busy {
            return ApplyDecision::Ignore;
        }
        self.closing = false;
        if !self.request.is_acceptable() {
            self.status = Status::NothingRequested;
            return ApplyDecision::Reject;
        }
        self.busy = true;
        if live {
            self.status = Status::Working;
        } else {
            self.status = Status::Refreshing;
        }
        ApplyDecision::Start { refresh: !live }
    }

    /// The worker has the addresses and goes on to compose.
    pub fn on_refreshed(&mut self)
        ensures
            final(self).status is Working,
            final(self).request == old(self).request,
            final(self).closing == old(self).closing,
            final(self).busy == old(self).busy,
    {
        self.status = Status::Working;
    }

    /// The worker is done. A failure is shown as it was reported.
    pub fn on_apply_done(&mut self, outcome: Result<(), Failure>)
        ensures
            !final(self).busy,
            final(self).request == old(self).request,
            final(self).closing == old(self).closing,
            final(self).status == match outcome {
                Ok(_) => Status::Applied,
                Err(failure) => Status::Failed(failure),
            },
    {
        self.busy = false;
        match outcome {
            Ok(_) => {
                self.status = Status::Applied;
            },
            Err(failure) => {
                self.status = Status::Failed(failure);
            },
        }
    }

    /// A click on Clear: nothing is ticked, the remark is empty, the countdown
    /// stops. No file is touched.
    pub fn on_clear(&mut self)
        ensures
            !final(self).request.show_hostname && !final(self).request.show_ip && !final(self).request.show_mac,
            final(self).request.remark@.len() == 0,
            final(self).status is Reset,
            !final(self).closing,
            final(self).busy == old(self).busy,
    {
        self.request = WatermarkRequest::cleared();
        self.closing = false;
        self.status = Status::Reset;
    }

    /// A click on Restore. Without a backup nothing is to be done, and the
    /// status says so; with one the plan is the one call that shows it.
    pub fn on_restore(&mut self, backup_exists: bool) -> (plan: Plan)
        ensures
            final(self).request == old(self).request,
            final(self).closing == old(self).closing,
            final(self).busy == old(self).busy,
            backup_exists ==> {
                &&& plan.verdict == Verdict::Proceed
                &&& plan.steps@ == restore_steps()
                &&& final(self).status == old(self).status
            },
            !backup_exists ==> {
                &&& plan.verdict == Verdict::NothingToRestore
                &&& plan.steps@.len() == 0
                &&& final(self).status is NoBackup
            },
    {
        if !backup_exists {
            self.status = Status::NoBackup;
        }
        plan_restore(backup_exists)
    }

    /// The operating system has answered the call that restores. On success
    /// the countdown starts at once; a refusal is shown as it was worded.
    pub fn on_restore_done(&mut self, outcome: Result<(), String>)
        ensures
            final(self).request == old(self).request,
            final(self).busy == old(self).busy,
            match outcome {
                Ok(_) => final(self).status is Restored && final(self).closing,
                Err(detail) => final(self).status == Status::Failed(Failure::OsCall(detail)) && final(self).closing == old(self).closing,
            },
    {
        match outcome {
            Ok(_) => {
                self.status = Status::Restored;
                self.closing = true;
            },
            Err(detail) => {
                self.status = Status::Failed(Failure::OsCall(detail));
            },
        }
    }

    /// One frame. `elapsed` is the number of whole seconds since the countdown
    /// started, and is not looked at while none is running. A success starts
    /// the countdown; the window closes once `CLOSE_AFTER_SECS` have passed.
    pub fn on_frame(&mut self, elapsed: u64) -> (frame: Frame)
        ensures
            final(self).request == old(self).request,
            final(self).status == old(self).status,
            final(self).busy == old(self).busy,
            final(self).closing == (old(self).closing || is_success(old(self).status)),
            frame.countdown_started == (!old(self).closing && is_success(old(self).status)),
            frame.action == frame_action(
                final(self).closing,
                if frame.countdown_started {
                    0
                } else {
                    elapsed as int
                },
            ),
            frame.message@ == frame_text(
                old(self).status,
                final(self).closing,
                if frame.countdown_started {
                    0
                } else {
                    elapsed as int
                },
            ),
    {
        let countdown_started = !self.closing && self.status.is_success();
        if countdown_started {
            self.closing = true;
        }
        let passed: u64 = if countdown_started {
            0
        } else {
            elapsed
        };
        let mut message = self.status.text();
        let action = if !self.closing {
            FrameAction::Idle
        } else if passed >= CLOSE_AFTER_SECS {
            FrameAction::Close
        } else {
            if self.status.is_success() {
                message.append(" ");
                message.append(seconds_label(CLOSE_AFTER_SECS - passed));
                message.append(" 秒后自动退出...");
            }
            FrameAction::RepaintSoon
        };
        Frame { message, action, countdown_started }
    }
}

} // verus!
