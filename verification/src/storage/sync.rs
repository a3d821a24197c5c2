//! The persistence protocol: which write or request comes next.
//!
//! A flow is a sequence of steps that the caller performs: writing the local
//! snapshot, sending a request to the cloud, asking for a new access token.
//! After each step the caller reports what happened, and is told the next
//! step. The rules:
//!
//! - A save writes the local snapshot first. The cloud is written only after
//!   that succeeded, and a failure of the cloud then says that the data is
//!   safe locally.
//! - A request that the cloud refuses because the access token has expired is
//!   sent once more after the token has been refreshed. A second refusal, or
//!   any other failure, is not retried.
//! - A pull merges what the cloud has into the store, pushes the result back
//!   to the cloud, where a failure is let pass, and writes it locally.

use vstd::prelude::*;
use vstd::string::StringExecFns;
use crate::error::AppError;
use crate::storage::drive::DriveError;
use crate::storage::merge::{is_merge_of, merge_stores, ReminderStore, StoreView};
use crate::storage::oauth::OAuthState;
use crate::storage::{Persist, Storage};

verus! {

/// A request to the cloud.
#[derive(Debug, Clone, Copy, PartialEq, Eq, Structural)]
pub enum CloudCall {
    /// Find the synced file in the folder, or create it from the store.
    Locate,
    /// Fetch the content of the synced file.
    Download,
    /// Overwrite the content of the synced file with the store.
    Upload,
}

/// What a flow is for.
#[derive(Debug, Clone, Copy, PartialEq, Eq, Structural)]
pub enum Flow {
    /// Write the store to the local snapshot.
    SaveLocal,
    /// Write the store to the local snapshot, then to the cloud.
    Save,
    /// Write the store to the cloud.
    Push,
    /// Fetch the cloud's store, merge it in, and write the result back to
    /// both.
    Pull,
    /// Connect to the cloud at startup: locate the synced file, then pull.
    Startup,
}

/// The step that the caller has to perform.
#[derive(Debug, Clone, Copy, PartialEq, Eq, Structural)]
pub enum Awaiting {
    /// Write the store to the local snapshot.
    LocalWrite,
    /// Send the request, with the session's access token.
    Cloud(CloudCall),
    /// Ask the token endpoint for a new access token; the request is sent
    /// again afterwards.
    Refresh(CloudCall),
}

/// Where a flow stands.
#[derive(Debug, Clone, Copy, PartialEq, Eq, Structural)]
pub struct Progress {
    pub flow: Flow,
    pub awaiting: Awaiting,
    /// Whether the request at hand has been sent again after a refresh
    /// already.
    pub refreshed: bool,
}

/// What the caller reports of a step.
#[derive(Debug)]
pub enum Outcome {
    LocalWritten(Result<(), String>),
    Located(Result<String, DriveError>),
    Downloaded(Result<ReminderStore, DriveError>),
    Uploaded(Result<(), DriveError>),
    Refreshed(Result<String, String>),
}

/// How a flow goes on.
#[derive(Debug, Clone, Copy, PartialEq, Eq, Structural)]
pub enum Next {
    /// Perform the step that the progress awaits, then resume.
    Continue(Progress),
    /// The flow is done. The flag says whether the cloud took part.
    Finished(bool),
}

/// What a report amounts to.
#[derive(Debug, Clone, Copy, PartialEq, Eq, Structural)]
pub enum Signal {
    LocalOk,
    LocalFailed,
    CloudOk,
    CloudExpired,
    CloudFailed,
    RefreshOk,
    RefreshFailed,
    /// The report is not of the step that was awaited.
    Unexpected,
}

/// What the session has at hand.
#[derive(Debug, Clone, Copy, PartialEq, Eq, Structural)]
pub struct Means {
    pub use_drive: bool,
    pub has_token: bool,
    pub has_folder: bool,
    pub has_file: bool,
    pub can_refresh: bool,
}

/// Why a flow failed.
#[derive(Debug, Clone, Copy, PartialEq, Eq, Structural)]
pub enum Failure {
    /// The local snapshot could not be written.
    Local,
    /// The cloud failed.
    Cloud,
    /// The cloud failed after the local snapshot had been written: the data
    /// is safe locally.
    CloudAfterLocal,
    /// The caller reported a step that was not awaited.
    Protocol,
}

/// Where the cause of a failure lies. It decides the kind of the error.
#[derive(Debug, Clone, Copy, PartialEq, Eq, Structural)]
pub enum Blame {
    /// The local snapshot: a storage error.
    Disk,
    /// The way to the cloud: a network error.
    Network,
    /// The cloud's answer, or the synced file: a drive error.
    Drive,
    /// The tokens: an OAuth error.
    OAuth,
    /// The caller: a validation error.
    Caller,
}

/// The decision taken on a report.
#[derive(Debug, Clone, Copy, PartialEq, Eq, Structural)]
pub enum Verdict {
    Continue(Progress),
    Finished(bool),
    Failed(Failure),
}

impl Means {
    /// Whether the session has what the request needs: the access token, and
    /// the folder to locate the file in or the file to transfer.
    pub open spec fn ready_for(self, call: CloudCall) -> bool {
        self.has_token && if call == CloudCall::Locate {
            self.has_folder
        } else {
            self.has_file
        }
    }

    /// Decides whether the session has what the request needs.
    pub fn is_ready_for(&self, call: CloudCall) -> (r: bool)
        ensures
            r == self.ready_for(call),
    {
        self.has_token && if call == CloudCall::Locate {
            self.has_folder
        } else {
            self.has_file
        }
    }
}

/// How the cloud's failures count in a flow: a save has written locally
/// before it turns to the cloud.
pub open spec fn cloud_failure(flow: Flow) -> Failure {
    if flow == Flow::Save {
        Failure::CloudAfterLocal
    } else {
        Failure::Cloud
    }
}

/// Whether a failed upload is let pass: after a pull the merged store is
/// pushed back, but what counts is that it is written locally.
pub open spec fn upload_may_fail(flow: Flow) -> bool {
    flow == Flow::Pull || flow == Flow::Startup
}

/// The decision on sending a request: go on with it if the session is ready;
/// else let it pass if it may fail; else fail.
pub open spec fn turn_to(flow: Flow, call: CloudCall, refreshed: bool, means: Means) -> Verdict {
    if means.ready_for(call) {
        Verdict::Continue(Progress { flow, awaiting: Awaiting::Cloud(call), refreshed })
    } else {
        give_up(flow, call)
    }
}

/// The decision on a request that cannot be sent or has failed for good: an
/// upload that may fail is passed over and the local write follows; anything
/// else fails the flow.
pub open spec fn give_up(flow: Flow, call: CloudCall) -> Verdict {
    if call == CloudCall::Upload && upload_may_fail(flow) {
        Verdict::Continue(Progress { flow, awaiting: Awaiting::LocalWrite, refreshed: false })
    } else {
        Verdict::Failed(cloud_failure(flow))
    }
}

/// The decision on a request that succeeded.
pub open spec fn after_success(flow: Flow, call: CloudCall, means: Means) -> Verdict {
    match call {
        CloudCall::Locate => turn_to(flow, CloudCall::Download, false, means),
        CloudCall::Download => turn_to(flow, CloudCall::Upload, false, means),
        CloudCall::Upload => if upload_may_fail(flow) {
            Verdict::Continue(Progress { flow, awaiting: Awaiting::LocalWrite, refreshed: false })
        } else {
            Verdict::Finished(true)
        },
    }
}

/// The decision on a local write that succeeded.
pub open spec fn after_local_write(flow: Flow, means: Means) -> Verdict {
    match flow {
        Flow::SaveLocal => Verdict::Finished(false),
        Flow::Save => if means.use_drive {
            turn_to(flow, CloudCall::Upload, false, means)
        } else {
            Verdict::Finished(false)
        },
        _ => Verdict::Finished(true),
    }
}

/// The decision on a report: `means` is what the session has at hand once
/// the report has been taken in.
pub open spec fn decision(progress: Progress, signal: Signal, means: Means) -> Verdict {
    let flow = progress.flow;
    match (progress.awaiting, signal) {
        (Awaiting::LocalWrite, Signal::LocalOk) => after_local_write(flow, means),
        (Awaiting::LocalWrite, Signal::LocalFailed) => if flow == Flow::Startup {
            Verdict::Finished(true)
        } else {
            Verdict::Failed(Failure::Local)
        },
        (Awaiting::Cloud(call), Signal::CloudOk) => after_success(flow, call, means),
        (Awaiting::Cloud(call), Signal::CloudExpired) => if !progress.refreshed
            && means.can_refresh {
            Verdict::Continue(Progress { flow, awaiting: Awaiting::Refresh(call), refreshed: false })
        } else {
            give_up(flow, call)
        },
        (Awaiting::Cloud(call), Signal::CloudFailed) => give_up(flow, call),
        (Awaiting::Refresh(call), Signal::RefreshOk) => turn_to(flow, call, true, means),
        (Awaiting::Refresh(call), Signal::RefreshFailed) => give_up(flow, call),
        _ => Verdict::Failed(Failure::Protocol),
    }
}

/// The decision on starting a flow.
pub open spec fn opening(flow: Flow, means: Means) -> Verdict {
    match flow {
        Flow::SaveLocal => Verdict::Continue(
            Progress { flow, awaiting: Awaiting::LocalWrite, refreshed: false },
        ),
        Flow::Save => Verdict::Continue(
            Progress { flow, awaiting: Awaiting::LocalWrite, refreshed: false },
        ),
        Flow::Push => if means.use_drive {
            turn_to(flow, CloudCall::Upload, false, means)
        } else {
            Verdict::Finished(false)
        },
        Flow::Pull => if means.use_drive {
            turn_to(flow, CloudCall::Download, false, means)
        } else {
            Verdict::Finished(false)
        },
        Flow::Startup => turn_to(flow, CloudCall::Locate, false, means),
    }
}

/// Decides on a request that cannot be sent or has failed for good.
pub fn decide_give_up(flow: Flow, call: CloudCall) -> (v: Verdict)
    ensures
        v == give_up(flow, call),
{
    let may_fail = match flow {
        Flow::Pull => true,
        Flow::Startup => true,
        _ => false,
    };
    let is_upload = match call {
        CloudCall::Upload => true,
        _ => false,
    };
    if is_upload && may_fail {
        Verdict::Continue(Progress { flow, awaiting: Awaiting::LocalWrite, refreshed: false })
    } else {
        match flow {
            Flow::Save => Verdict::Failed(Failure::CloudAfterLocal),
            _ => Verdict::Failed(Failure::Cloud),
        }
    }
}

/// Decides on sending a request.
pub fn decide_turn_to(flow: Flow, call: CloudCall, refreshed: bool, means: Means) -> (v: Verdict)
    ensures
        v == turn_to(flow, call, refreshed, means),
{
    if means.is_ready_for(call) {
        Verdict::Continue(Progress { flow, awaiting: Awaiting::Cloud(call), refreshed })
    } else {
        decide_give_up(flow, call)
    }
}

/// Decides on a report.
pub fn decide(progress: Progress, signal: Signal, means: Means) -> (v: Verdict)
    ensures
        v == decision(progress, signal, means),
{
    let flow = progress.flow;
    match (progress.awaiting, signal) {
        (Awaiting::LocalWrite, Signal::LocalOk) => match flow {
            Flow::SaveLocal => Verdict::Finished(false),
            Flow::Save => if means.use_drive {
                decide_turn_to(flow, CloudCall::Upload, false, means)
            } else {
                Verdict::Finished(false)
            },
            _ => Verdict::Finished(true),
        },
        (Awaiting::LocalWrite, Signal::LocalFailed) => match flow {
            Flow::Startup => Verdict::Finished(true),
            _ => Verdict::Failed(Failure::Local),
        },
        (Awaiting::Cloud(call), Signal::CloudOk) => match call {
            CloudCall::Locate => decide_turn_to(flow, CloudCall::Download, false, means),
            CloudCall::Download => decide_turn_to(flow, CloudCall::Upload, false, means),
            CloudCall::Upload => match flow {
                Flow::Pull => Verdict::Continue(
                    Progress { flow, awaiting: Awaiting::LocalWrite, refreshed: false },
                ),
                Flow::Startup => Verdict::Continue(
                    Progress { flow, awaiting: Awaiting::LocalWrite, refreshed: false },
                ),
                _ => Verdict::Finished(true),
            },
        },
        (Awaiting::Cloud(call), Signal::CloudExpired) => if !progress.refreshed
            && means.can_refresh {
            Verdict::Continue(Progress { flow, awaiting: Awaiting::Refresh(call), refreshed: false })
        } else {
            decide_give_up(flow, call)
        },
        (Awaiting::Cloud(call), Signal::CloudFailed) => decide_give_up(flow, call),
        (Awaiting::Refresh(call), Signal::RefreshOk) => decide_turn_to(flow, call, true, means),
        (Awaiting::Refresh(call), Signal::RefreshFailed) => decide_give_up(flow, call),
        _ => Verdict::Failed(Failure::Protocol),
    }
}

/// Decides on starting a flow.
pub fn decide_opening(flow: Flow, means: Means) -> (v: Verdict)
    ensures
        v == opening(flow, means),
{
    match flow {
        Flow::SaveLocal => Verdict::Continue(
            Progress { flow, awaiting: Awaiting::LocalWrite, refreshed: false },
        ),
        Flow::Save => Verdict::Continue(
            Progress { flow, awaiting: Awaiting::LocalWrite, refreshed: false },
        ),
        Flow::Push => if means.use_drive {
            decide_turn_to(flow, CloudCall::Upload, false, means)
        } else {
            Verdict::Finished(false)
        },
        Flow::Pull => if means.use_drive {
            decide_turn_to(flow, CloudCall::Download, false, means)
        } else {
            Verdict::Finished(false)
        },
        Flow::Startup => decide_turn_to(flow, CloudCall::Locate, false, means),
    }
}

/// How far a flow is from its end: every step takes it closer.
pub open spec fn steps_left(progress: Progress) -> nat {
    let stage: nat = match progress.awaiting {
        Awaiting::LocalWrite => if progress.flow == Flow::Save || progress.flow
            == Flow::SaveLocal {
            4
        } else {
            0
        },
        Awaiting::Cloud(call) => call_stage(call),
        Awaiting::Refresh(call) => call_stage(call),
    };
    let attempt: nat = match progress.awaiting {
        Awaiting::LocalWrite => 0,
        Awaiting::Cloud(_) => if progress.refreshed {
            0
        } else {
            2
        },
        Awaiting::Refresh(_) => 1,
    };
    3 * stage + attempt
}

/// The place of a request in a flow, counted from the end.
pub open spec fn call_stage(call: CloudCall) -> nat {
    match call {
        CloudCall::Locate => 3,
        CloudCall::Download => 2,
        CloudCall::Upload => 1,
    }
}

/// Every flow ends: each decision to go on takes the flow closer to its end,
/// which is at most twelve steps away.
pub proof fn lemma_flow_ends(progress: Progress, signal: Signal, means: Means)
    ensures
        steps_left(progress) <= 12,
        match decision(progress, signal, means) {
            Verdict::Continue(next) => next.flow == progress.flow && steps_left(next) < steps_left(
                progress,
            ),
            _ => true,
        },
{
}

/// A refusal is answered by one refresh only: a request that has been sent
/// again after a refresh is never followed by another refresh.
pub proof fn lemma_one_refresh(progress: Progress, signal: Signal, means: Means)
    requires
        progress.refreshed,
        progress.awaiting is Cloud,
    ensures
        match decision(progress, signal, means) {
            Verdict::Continue(next) => !(next.awaiting is Refresh),
            _ => true,
        },
{
}

/// A refresh is asked for only when the cloud has refused the access token,
/// and the request that follows it is the refused one.
pub proof fn lemma_refresh_follows_refusal(progress: Progress, signal: Signal, means: Means)
    ensures
        match decision(progress, signal, means) {
            Verdict::Continue(next) => {
                &&& next.awaiting is Refresh ==> signal == Signal::CloudExpired
                    && progress.awaiting == Awaiting::Cloud(next.awaiting->Refresh_0)
                &&& progress.awaiting is Refresh && next.awaiting is Cloud ==> next.awaiting
                    == Awaiting::Cloud(progress.awaiting->Refresh_0) && next.refreshed
            },
            _ => true,
        },
{
}

/// A save writes locally first: it opens with the local write, turns to the
/// cloud only when that write succeeded, and from then on fails only with
/// the data safe locally.
pub proof fn lemma_save_is_local_first(progress: Progress, signal: Signal, means: Means)
    requires
        progress.flow == Flow::Save,
    ensures
        opening(Flow::Save, means) == Verdict::Continue(
            Progress { flow: Flow::Save, awaiting: Awaiting::LocalWrite, refreshed: false },
        ),
        progress.awaiting == Awaiting::LocalWrite && signal != Signal::LocalOk ==> !(decision(
            progress,
            signal,
            means,
        ) is Continue),
        decision(progress, signal, means) == Verdict::Failed(Failure::Local) ==> progress.awaiting
            == Awaiting::LocalWrite && signal == Signal::LocalFailed,
        decision(progress, signal, means) == Verdict::Failed(Failure::CloudAfterLocal)
            ==> signal != Signal::LocalFailed,
        !(decision(progress, signal, means) == Verdict::Failed(Failure::Cloud)),
{
}

/// A pull ends well only with the local write: the cloud failing to take the
/// merged store back does not fail it, the local write failing does.
pub proof fn lemma_pull_ends_locally(progress: Progress, signal: Signal, means: Means)
    requires
        progress.flow == Flow::Pull,
    ensures
        decision(progress, signal, means) is Finished ==> progress.awaiting == Awaiting::LocalWrite
            && signal == Signal::LocalOk && decision(progress, signal, means) == Verdict::Finished(
            true,
        ),
        progress.awaiting == Awaiting::Cloud(CloudCall::Upload) && (signal == Signal::CloudOk
            || signal == Signal::CloudExpired || signal == Signal::CloudFailed) ==> decision(
            progress,
            signal,
            means,
        ) is Continue,
        progress.awaiting == Awaiting::Refresh(CloudCall::Upload) && (signal == Signal::RefreshOk
            || signal == Signal::RefreshFailed) ==> decision(progress, signal, means) is Continue,
        progress.awaiting == Awaiting::LocalWrite && signal == Signal::LocalFailed ==> decision(
            progress,
            signal,
            means,
        ) == Verdict::Failed(Failure::Local),
{
}

/// Whether a store holds anything.
pub open spec fn holds_items(s: StoreView) -> bool {
    s.pending.len() + s.completed.len() > 0
}

/// Whether `result` is what pulling `cloud` into `local` gives: a merge of
/// the two where both hold something, the cloud's store where only the cloud
/// does, and the local store else.
pub open spec fn pulled(local: StoreView, cloud: StoreView, result: StoreView) -> bool {
    if holds_items(local) && holds_items(cloud) {
        is_merge_of(result, local, cloud)
    } else if holds_items(cloud) {
        result == cloud
    } else {
        result == local
    }
}

/// What a report amounts to, given the step that was awaited.
pub open spec fn signal_of(awaiting: Awaiting, outcome: Outcome) -> Signal {
    match (awaiting, outcome) {
        (Awaiting::LocalWrite, Outcome::LocalWritten(r)) => if r is Ok {
            Signal::LocalOk
        } else {
            Signal::LocalFailed
        },
        (Awaiting::Cloud(CloudCall::Locate), Outcome::Located(r)) => cloud_signal(
            r is Ok,
            r is Err && r->Err_0 is AuthExpired,
        ),
        (Awaiting::Cloud(CloudCall::Download), Outcome::Downloaded(r)) => cloud_signal(
            r is Ok,
            r is Err && r->Err_0 is AuthExpired,
        ),
        (Awaiting::Cloud(CloudCall::Upload), Outcome::Uploaded(r)) => cloud_signal(
            r is Ok,
            r is Err && r->Err_0 is AuthExpired,
        ),
        (Awaiting::Refresh(_), Outcome::Refreshed(r)) => if r is Ok {
            Signal::RefreshOk
        } else {
            Signal::RefreshFailed
        },
        _ => Signal::Unexpected,
    }
}

/// What the answer to a request amounts to.
pub open spec fn cloud_signal(ok: bool, expired: bool) -> Signal {
    if ok {
        Signal::CloudOk
    } else if expired {
        Signal::CloudExpired
    } else {
        Signal::CloudFailed
    }
}

/// The text of the failure that a report tells of; empty if it tells of
/// none.
pub open spec fn reported_text(outcome: Outcome) -> Seq<char> {
    match outcome {
        Outcome::LocalWritten(Err(e)) => e@,
        Outcome::Located(Err(e)) => e.text(),
        Outcome::Downloaded(Err(e)) => e.text(),
        Outcome::Uploaded(Err(e)) => e.text(),
        Outcome::Refreshed(Err(e)) => e@,
        _ => Seq::empty(),
    }
}

/// Where the cause of a request's failure lies: a refused token is a matter
/// of the tokens, a failure status of the cloud, anything else of the way
/// there.
pub open spec fn drive_blame(e: DriveError) -> Blame {
    match e {
        DriveError::AuthExpired => Blame::OAuth,
        DriveError::Api(_) => Blame::Drive,
        DriveError::Transport(_) => Blame::Network,
    }
}

/// Where the cause of the failure lies that a report tells of.
pub open spec fn reported_blame(outcome: Outcome) -> Blame {
    match outcome {
        Outcome::LocalWritten(Err(_)) => Blame::Disk,
        Outcome::Located(Err(e)) => drive_blame(e),
        Outcome::Downloaded(Err(e)) => drive_blame(e),
        Outcome::Uploaded(Err(e)) => drive_blame(e),
        Outcome::Refreshed(Err(_)) => Blame::OAuth,
        _ => Blame::Caller,
    }
}

/// Where the cause lies when the session lacks something for a request: a
/// missing token is a matter of the tokens, a missing folder or file of the
/// cloud.
pub open spec fn lack_blame(means: Means, call: CloudCall) -> Blame {
    if !means.has_token {
        Blame::OAuth
    } else {
        Blame::Drive
    }
}

/// Finds where the cause of a request's failure lies.
pub fn find_drive_blame(e: &DriveError) -> (b: Blame)
    ensures
        b == drive_blame(*e),
{
    match e {
        DriveError::AuthExpired => Blame::OAuth,
        DriveError::Api(_) => Blame::Drive,
        DriveError::Transport(_) => Blame::Network,
    }
}

/// The request that a flow begins with, if it begins with one.
pub open spec fn first_call(flow: Flow) -> CloudCall {
    if flow == Flow::Startup {
        CloudCall::Locate
    } else if flow == Flow::Pull {
        CloudCall::Download
    } else {
        CloudCall::Upload
    }
}

/// The request that a report, if it is a good one, is followed by.
pub open spec fn call_after(progress: Progress, signal: Signal) -> CloudCall {
    match (progress.awaiting, signal) {
        (Awaiting::Cloud(CloudCall::Locate), Signal::CloudOk) => CloudCall::Download,
        (Awaiting::Refresh(call), Signal::RefreshOk) => call,
        _ => CloudCall::Upload,
    }
}

/// What the session lacks for a request: the access token, the folder, or
/// the file.
pub open spec fn lacking_for(means: Means, call: CloudCall) -> Seq<char> {
    if !means.has_token {
        "No access token"@
    } else if call == CloudCall::Locate {
        "No folder ID"@
    } else {
        "No file ID"@
    }
}

impl Storage {
    /// What the session has at hand.
    pub open spec fn means(&self) -> Means {
        Means {
            use_drive: self.use_drive,
            has_token: self.access_token is Some,
            has_folder: self.folder_id is Some,
            has_file: self.file_id is Some,
            can_refresh: self.refresh_token is Some && self.client_id is Some
                && self.client_secret is Some,
        }
    }

    /// What the session lacks for a refresh: the refresh token, the client
    /// id, or the client secret.
    pub open spec fn lacking_for_refresh(&self) -> Seq<char> {
        if self.refresh_token is None {
            "No refresh token"@
        } else if self.client_id is None {
            "No client ID"@
        } else {
            "No client secret"@
        }
    }

    /// The cause that a failed flow names: what the report told of or, where
    /// the session lacks something for the next step, what it lacks.
    pub open spec fn cause_text(
        &self,
        progress: Progress,
        signal: Signal,
        reported: Seq<char>,
    ) -> Seq<char> {
        match signal {
            Signal::LocalFailed => reported,
            Signal::CloudFailed => reported,
            Signal::RefreshFailed => reported,
            Signal::CloudExpired => if !progress.refreshed && !self.means().can_refresh {
                self.lacking_for_refresh()
            } else {
                reported
            },
            Signal::Unexpected => "Unexpected report"@,
            _ => lacking_for(self.means(), call_after(progress, signal)),
        }
    }

    /// Where the cause of a failed flow lies: where the report puts it or,
    /// where the session lacks something for the next step, with what it
    /// lacks. The means of a refresh are a matter of the tokens.
    pub open spec fn blame(&self, progress: Progress, signal: Signal, reported: Blame) -> Blame {
        match signal {
            Signal::LocalFailed => reported,
            Signal::CloudFailed => reported,
            Signal::RefreshFailed => reported,
            Signal::CloudExpired => Blame::OAuth,
            Signal::Unexpected => Blame::Caller,
            _ => lack_blame(self.means(), call_after(progress, signal)),
        }
    }

    /// Collects what the session has at hand.
    pub fn gather_means(&self) -> (m: Means)
        ensures
            m == self.means(),
    {
        Means {
            use_drive: self.use_drive,
            has_token: self.access_token.is_some(),
            has_folder: self.folder_id.is_some(),
            has_file: self.file_id.is_some(),
            can_refresh: self.refresh_token.is_some() && self.client_id.is_some()
                && self.client_secret.is_some(),
        }
    }

    /// Names what the session lacks for a request.
    pub fn name_lacking(&self, call: CloudCall) -> (s: String)
        ensures
            s@ == lacking_for(self.means(), call),
    {
        if self.access_token.is_none() {
            String::from_str("No access token")
        } else {
            match call {
                CloudCall::Locate => String::from_str("No folder ID"),
                _ => String::from_str("No file ID"),
            }
        }
    }

    /// Finds where the cause lies when the session lacks something for a
    /// request.
    pub fn find_lack_blame(&self, call: CloudCall) -> (b: Blame)
        ensures
            b == lack_blame(self.means(), call),
    {
        if self.access_token.is_none() {
            Blame::OAuth
        } else {
            Blame::Drive
        }
    }

    /// Names what the session lacks for a refresh.
    pub fn name_lacking_for_refresh(&self) -> (s: String)
        ensures
            s@ == self.lacking_for_refresh(),
    {
        if self.refresh_token.is_none() {
            String::from_str("No refresh token")
        } else if self.client_id.is_none() {
            String::from_str("No client ID")
        } else {
            String::from_str("No client secret")
        }
    }

    /// Takes the cloud's store into the store: merged where both hold
    /// something, as it is where only the cloud does.
    pub fn absorb(&mut self, cloud: ReminderStore)
        ensures
            pulled(old(self).data@, cloud@, final(self).data@),
            *final(self) == (Storage { data: final(self).data, ..*old(self) }),
    {
        let local_count = self.data.pending.len() as u128 + self.data.completed.len() as u128;
        let cloud_count = cloud.pending.len() as u128 + cloud.completed.len() as u128;
        if local_count > 0 && cloud_count > 0 {
            self.data = merge_stores(&self.data, &cloud);
        } else if cloud_count > 0 {
            self.data = cloud;
        }
    }
}

/// Whether the error is of the kind that the blame asks for.
pub open spec fn kind_matches(e: AppError, blame: Blame) -> bool {
    match blame {
        Blame::Disk => e is Storage,
        Blame::Network => e is Network,
        Blame::Drive => e is Drive,
        Blame::OAuth => e is OAuth,
        Blame::Caller => e is Validation,
    }
}

/// Whether the error tells of the failure: it is of the kind that the blame
/// asks for, and its message is the cause, after the words that the data is
/// safe locally where the cloud failed after the local write.
pub open spec fn tells_of(e: AppError, failure: Failure, blame: Blame, cause: Seq<char>) -> bool {
    &&& kind_matches(e, blame)
    &&& e.message() == if failure == Failure::CloudAfterLocal {
        "Saved locally but cloud sync failed: "@ + cause
    } else {
        cause
    }
}

/// Makes the error that tells of the failure.
pub fn failure_error(failure: Failure, blame: Blame, cause: String) -> (e: AppError)
    ensures
        tells_of(e, failure, blame, cause@),
{
    let message = match failure {
        Failure::CloudAfterLocal => String::from_str("Saved locally but cloud sync failed: ").concat(
            cause.as_str(),
        ),
        _ => cause,
    };
    match blame {
        Blame::Disk => AppError::Storage(message),
        Blame::Network => AppError::Network(message),
        Blame::Drive => AppError::Drive(message),
        Blame::OAuth => AppError::OAuth(message),
        Blame::Caller => AppError::Validation(message),
    }
}

/// Whether `res` conveys the decision: the next step or the end as they are,
/// a failure as an error that tells of it.
pub open spec fn conveys(
    res: Result<Next, AppError>,
    verdict: Verdict,
    blame: Blame,
    cause: Seq<char>,
) -> bool {
    match verdict {
        Verdict::Continue(progress) => res == Ok::<Next, AppError>(Next::Continue(progress)),
        Verdict::Finished(synced) => res == Ok::<Next, AppError>(Next::Finished(synced)),
        Verdict::Failed(failure) => res is Err && tells_of(res->Err_0, failure, blame, cause),
    }
}

/// Conveys a decision to the caller.
pub fn convey(verdict: Verdict, blame: Blame, cause: String) -> (res: Result<Next, AppError>)
    ensures
        conveys(res, verdict, blame, cause@),
{
    match verdict {
        Verdict::Continue(progress) => Ok(Next::Continue(progress)),
        Verdict::Finished(synced) => Ok(Next::Finished(synced)),
        Verdict::Failed(failure) => Err(failure_error(failure, blame, cause)),
    }
}

impl Storage {
    /// The access token once the report has been taken in: the new one that
    /// a refresh gave, else the old one.
    pub open spec fn token_after(&self, awaiting: Awaiting, outcome: Outcome) -> Option<String> {
        match (awaiting, outcome) {
            (Awaiting::Refresh(_), Outcome::Refreshed(Ok(token))) => Some(token),
            _ => self.access_token,
        }
    }

    /// The synced file once the report has been taken in: the one that was
    /// located, else the old one.
    pub open spec fn file_after(&self, awaiting: Awaiting, outcome: Outcome) -> Option<String> {
        match (awaiting, outcome) {
            (Awaiting::Cloud(CloudCall::Locate), Outcome::Located(Ok(id))) => Some(id),
            _ => self.file_id,
        }
    }

    /// Whether `data` is the store once the report has been taken in: what
    /// pulling gives where the report brings the cloud's store, else the
    /// store as it was.
    pub open spec fn data_after(
        &self,
        awaiting: Awaiting,
        outcome: Outcome,
        data: ReminderStore,
    ) -> bool {
        match (awaiting, outcome) {
            (Awaiting::Cloud(CloudCall::Download), Outcome::Downloaded(Ok(cloud))) => pulled(
                self.data@,
                cloud@,
                data@,
            ),
            _ => data == self.data,
        }
    }

    /// Starts a flow and tells the first step.
    ///
    /// Fails exactly when the flow needs the cloud at once and the session
    /// lacks what the first request needs. A startup that fails leaves the
    /// cloud switched off.
    pub fn start(&mut self, flow: Flow) -> (res: Result<Next, AppError>)
        ensures
            conveys(
                res,
                opening(flow, old(self).means()),
                lack_blame(old(self).means(), first_call(flow)),
                lacking_for(old(self).means(), first_call(flow)),
            ),
            *final(self) == (Storage {
                use_drive: old(self).use_drive && !(flow == Flow::Startup && res is Err),
                ..*old(self)
            }),
    {
        let means = self.gather_means();
        let verdict = decide_opening(flow, means);
        let first = match flow {
            Flow::Startup => CloudCall::Locate,
            Flow::Pull => CloudCall::Download,
            _ => CloudCall::Upload,
        };
        let cause = self.name_lacking(first);
        let blame = self.find_lack_blame(first);
        match (flow, verdict) {
            (Flow::Startup, Verdict::Failed(_)) => {
                self.use_drive = false;
            },
            _ => {},
        }
        convey(verdict, blame, cause)
    }

    /// Takes in the report of a step and tells the next one.
    ///
    /// A new access token, the located file and the cloud's store are taken
    /// into the session before the decision is made. A report of a step that
    /// was not awaited fails the flow and changes nothing. A startup that
    /// fails leaves the cloud switched off.
    pub fn resume(&mut self, progress: Progress, outcome: Outcome) -> (res: Result<Next, AppError>)
        ensures
            ({
                let signal = signal_of(progress.awaiting, outcome);
                let taken_in = Storage {
                    data: final(self).data,
                    access_token: old(self).token_after(progress.awaiting, outcome),
                    file_id: old(self).file_after(progress.awaiting, outcome),
                    ..*old(self)
                };
                let verdict = decision(progress, signal, taken_in.means());
                &&& old(self).data_after(progress.awaiting, outcome, final(self).data)
                &&& conveys(
                    res,
                    verdict,
                    taken_in.blame(progress, signal, reported_blame(outcome)),
                    taken_in.cause_text(progress, signal, reported_text(outcome)),
                )
                &&& *final(self) == (Storage {
                    use_drive: old(self).use_drive && !(progress.flow == Flow::Startup
                        && verdict is Failed && signal != Signal::Unexpected),
                    ..taken_in
                })
            }),
    {
        let ghost before = *self;
        let mut reported = String::new();
        let mut reported_by = Blame::Caller;
        let signal = match (progress.awaiting, outcome) {
            (Awaiting::LocalWrite, Outcome::LocalWritten(r)) => match r {
                Ok(_) => Signal::LocalOk,
                Err(e) => {
                    reported = e;
                    reported_by = Blame::Disk;
                    Signal::LocalFailed
                },
            },
            (Awaiting::Cloud(CloudCall::Locate), Outcome::Located(r)) => match r {
                Ok(id) => {
                    self.file_id = Some(id);
                    Signal::CloudOk
                },
                Err(e) => {
                    reported = e.message();
                    reported_by = find_drive_blame(&e);
                    if e.is_auth_expired() {
                        Signal::CloudExpired
                    } else {
                        Signal::CloudFailed
                    }
                },
            },
            (Awaiting::Cloud(CloudCall::Download), Outcome::Downloaded(r)) => match r {
                Ok(cloud) => {
                    self.absorb(cloud);
                    Signal::CloudOk
                },
                Err(e) => {
                    reported = e.message();
                    reported_by = find_drive_blame(&e);
                    if e.is_auth_expired() {
                        Signal::CloudExpired
                    } else {
                        Signal::CloudFailed
                    }
                },
            },
            (Awaiting::Cloud(CloudCall::Upload), Outcome::Uploaded(r)) => match r {
                Ok(_) => Signal::CloudOk,
                Err(e) => {
                    reported = e.message();
                    reported_by = find_drive_blame(&e);
                    if e.is_auth_expired() {
                        Signal::CloudExpired
                    } else {
                        Signal::CloudFailed
                    }
                },
            },
            (Awaiting::Refresh(_), Outcome::Refreshed(r)) => match r {
                Ok(token) => {
                    self.access_token = Some(token);
                    Signal::RefreshOk
                },
                Err(e) => {
                    reported = e;
                    reported_by = Blame::OAuth;
                    Signal::RefreshFailed
                },
            },
            _ => Signal::Unexpected,
        };
        assert(signal == signal_of(progress.awaiting, outcome));
        assert(signal == Signal::LocalFailed || signal == Signal::CloudFailed || signal
            == Signal::CloudExpired || signal == Signal::RefreshFailed ==> reported@
            == reported_text(outcome) && reported_by == reported_blame(outcome));
        let means = self.gather_means();
        let verdict = decide(progress, signal, means);
        let then = match (progress.awaiting, signal) {
            (Awaiting::Cloud(CloudCall::Locate), Signal::CloudOk) => CloudCall::Download,
            (Awaiting::Refresh(call), Signal::RefreshOk) => call,
            _ => CloudCall::Upload,
        };
        let blame = match signal {
            Signal::LocalFailed => reported_by,
            Signal::CloudFailed => reported_by,
            Signal::RefreshFailed => reported_by,
            Signal::CloudExpired => Blame::OAuth,
            Signal::Unexpected => Blame::Caller,
            _ => self.find_lack_blame(then),
        };
        let cause = match signal {
            Signal::LocalFailed => reported,
            Signal::CloudFailed => reported,
            Signal::RefreshFailed => reported,
            Signal::CloudExpired => if !progress.refreshed && !means.can_refresh {
                self.name_lacking_for_refresh()
            } else {
                reported
            },
            Signal::Unexpected => String::from_str("Unexpected report"),
            _ => self.name_lacking(then),
        };
        match (progress.flow, verdict, signal) {
            (Flow::Startup, Verdict::Failed(_), Signal::Unexpected) => {},
            (Flow::Startup, Verdict::Failed(_), _) => {
                self.use_drive = false;
            },
            _ => {},
        }
        convey(verdict, blame, cause)
    }

    /// Starts writing what the commands since the last save have left to
    /// write, and tells the first step; nothing is left to write afterwards.
    /// Changes that stay local are written to the local snapshot only.
    pub fn begin_save(&mut self) -> (next: Next)
        ensures
            next == match old(self).unsaved {
                Persist::Nothing => Next::Finished(false),
                Persist::LocalOnly => Next::Continue(
                    Progress { flow: Flow::SaveLocal, awaiting: Awaiting::LocalWrite, refreshed: false },
                ),
                Persist::LocalAndCloud => Next::Continue(
                    Progress { flow: Flow::Save, awaiting: Awaiting::LocalWrite, refreshed: false },
                ),
            },
            *final(self) == (Storage { unsaved: Persist::Nothing, ..*old(self) }),
    {
        let unsaved = self.unsaved;
        self.unsaved = Persist::Nothing;
        match unsaved {
            Persist::Nothing => Next::Finished(false),
            Persist::LocalOnly => Next::Continue(
                Progress { flow: Flow::SaveLocal, awaiting: Awaiting::LocalWrite, refreshed: false },
            ),
            Persist::LocalAndCloud => Next::Continue(
                Progress { flow: Flow::Save, awaiting: Awaiting::LocalWrite, refreshed: false },
            ),
        }
    }

    /// Starts pushing the store to the cloud. Done at once, with nothing
    /// pushed, when there is no cloud session.
    pub fn sync_to_cloud(&mut self) -> (res: Result<Next, AppError>)
        ensures
            conveys(
                res,
                opening(Flow::Push, old(self).means()),
                lack_blame(old(self).means(), CloudCall::Upload),
                lacking_for(old(self).means(), CloudCall::Upload),
            ),
            *final(self) == *old(self),
    {
        self.start(Flow::Push)
    }

    /// Starts pulling the cloud's store into the store. Done at once, with
    /// nothing pulled, when there is no cloud session.
    pub fn refresh_from_cloud(&mut self) -> (res: Result<Next, AppError>)
        ensures
            conveys(
                res,
                opening(Flow::Pull, old(self).means()),
                lack_blame(old(self).means(), CloudCall::Download),
                lacking_for(old(self).means(), CloudCall::Download),
            ),
            *final(self) == *old(self),
    {
        self.start(Flow::Pull)
    }

    /// Takes the loaded session in, switches the cloud on, and starts the
    /// startup flow: locate the synced file, pull, write back.
    pub fn reload_oauth_state(&mut self, state: OAuthState) -> (res: Result<Next, AppError>)
        ensures
            res == Ok::<Next, AppError>(
                Next::Continue(
                    Progress {
                        flow: Flow::Startup,
                        awaiting: Awaiting::Cloud(CloudCall::Locate),
                        refreshed: false,
                    },
                ),
            ),
            *final(self) == (Storage {
                use_drive: true,
                access_token: Some(state.access_token),
                refresh_token: state.refresh_token,
                client_id: state.client_id,
                client_secret: state.client_secret,
                folder_id: Some(state.folder_id),
                ..*old(self)
            }),
    {
        self.access_token = Some(state.access_token);
        self.refresh_token = state.refresh_token;
        self.client_id = state.client_id;
        self.client_secret = state.client_secret;
        self.folder_id = Some(state.folder_id);
        self.use_drive = true;
        self.start(Flow::Startup)
    }
}

} // verus!
