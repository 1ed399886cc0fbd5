//! The three operations offered to the caller, as rules of sequence.
//!
//! An operation touches files, the network and processes, and none of that is
//! done here. Each operation is a machine instead: it is told how the step it
//! asked for has ended, and answers with the step to take next, or with the
//! report that ends the operation. A failure is a report, never a crash.

use crate::account::{AccountError, Credentials};
use crate::error::{AuthError, ProcessError};
use crate::text::{concat, optional_text};
use vstd::prelude::*;

verus! {

/// The outcome of an operation, as the caller sees it.
#[derive(Debug, Clone, PartialEq, Eq)]
pub struct ApiResponse {
    pub success: bool,
    pub message: String,
}

/// An `ApiResponse`, as mathematics.
pub ghost struct Report {
    pub success: bool,
    pub message: Seq<char>,
}

impl View for ApiResponse {
    type V = Report;

    open spec fn view(&self) -> Report {
        Report { success: self.success, message: self.message@ }
    }
}

/// How a step that an operation asked for has ended.
#[derive(Debug, PartialEq, Eq)]
pub enum StepEvent {
    /// The request to the account endpoint did not get through.
    RequestFailed(String),
    /// The endpoint answered with something that is not JSON.
    DecodeFailed(String),
    /// The endpoint answered, and this is what the answer says.
    Answered(Result<Credentials, AccountError>),
    /// The credential rows were written, or not.
    CredentialsStored(Result<(), AuthError>),
    /// The device identity was reset, or not; the text says why not.
    IdentityReset(Result<(), String>),
    /// The editor was started again, or not.
    Restarted(Result<(), ProcessError>),
}

/// What an operation asks for next.
#[derive(Debug, Clone, PartialEq, Eq)]
pub enum NextStep {
    /// Write these credential fields to the store.
    StoreCredentials { email: Option<String>, access_token: Option<String>, refresh_token: Option<String> },
    /// Reset the device identity.
    ResetIdentity,
    /// Stop the editor and start it again.
    Restart,
    /// The operation is over; hand this to the caller.
    Report(ApiResponse),
}

/// A `NextStep`, as mathematics.
pub ghost enum NextStepView {
    StoreCredentials { email: Option<Seq<char>>, access_token: Option<Seq<char>>, refresh_token: Option<Seq<char>> },
    ResetIdentity,
    Restart,
    Report(Report),
}

impl View for NextStep {
    type V = NextStepView;

    open spec fn view(&self) -> NextStepView {
        match *self {
            NextStep::StoreCredentials { email, access_token, refresh_token } => NextStepView::StoreCredentials {
                email: optional_text(email),
                access_token: optional_text(access_token),
                refresh_token: optional_text(refresh_token),
            },
            NextStep::ResetIdentity => NextStepView::ResetIdentity,
            NextStep::Restart => NextStepView::Restart,
            NextStep::Report(r) => NextStepView::Report(r@),
        }
    }
}

/// A report of success with a fixed message.
pub open spec fn succeeded(message: Seq<char>) -> NextStepView {
    NextStepView::Report(Report { success: true, message })
}

/// A report of failure with a fixed message.
pub open spec fn failed(message: Seq<char>) -> NextStepView {
    NextStepView::Report(Report { success: false, message })
}

fn report(success: bool, message: String) -> (r: NextStep)
    ensures
        r@ == NextStepView::Report(Report { success, message: message@ }),
{
    NextStep::Report(ApiResponse { success, message })
}

/// The report on a credential update that was asked for by itself.
pub open spec fn credentials_report(outcome: Result<(), AuthError>) -> Report {
    match outcome {
        Ok(_) => Report { success: true, message: "认证信息更新成功"@ },
        Err(e) => Report { success: false, message: "认证信息更新失败: "@ + e.message_text() },
    }
}

/// Reports on a credential update: success, or failure with the store's reason.
pub fn update_cursor_auth(outcome: &Result<(), AuthError>) -> (r: ApiResponse)
    ensures
        r@ == credentials_report(*outcome),
{
    match outcome {
        Ok(_) => ApiResponse { success: true, message: "认证信息更新成功".to_owned() },
        Err(e) => {
            let reason = e.message();
            ApiResponse { success: false, message: concat("认证信息更新失败: ", reason.as_str()) }
        },
    }
}

/// Where an identity reset stands.
#[derive(Debug, Clone, Copy, PartialEq, Eq)]
pub enum ResetState {
    /// The reset was asked for; `restart` says whether the editor is to be
    /// started again after it.
    Resetting { restart: bool },
    /// The reset is done and the restart was asked for.
    Restarting,
    /// The report was given.
    Finished,
}

/// The rule of an identity reset: the state and step that follow `event` in
/// `state`, or `None` where `state` does not wait for `event`.
///
/// A reset that fails ends the operation as a failure. After a reset that
/// succeeded the operation is a success whatever the restart does: a restart
/// that fails is told in the message.
pub open spec fn reset_identity_rule(state: ResetState, event: StepEvent) -> Option<(ResetState, NextStepView)> {
    match (state, event) {
        (ResetState::Resetting { restart }, StepEvent::IdentityReset(Err(reason))) => Some(
            (ResetState::Finished, failed("机器 ID 重置失败: "@ + reason@)),
        ),
        (ResetState::Resetting { restart }, StepEvent::IdentityReset(Ok(_))) => if restart {
            Some((ResetState::Restarting, NextStepView::Restart))
        } else {
            Some((ResetState::Finished, succeeded("机器 ID 重置成功"@)))
        },
        (ResetState::Restarting, StepEvent::Restarted(Ok(_))) => Some(
            (ResetState::Finished, succeeded("机器 ID 重置成功，Cursor 已重启"@)),
        ),
        (ResetState::Restarting, StepEvent::Restarted(Err(e))) => Some(
            (ResetState::Finished, succeeded("机器 ID 重置成功，但 Cursor 重启失败: "@ + e.message_text())),
        ),
        _ => None,
    }
}

/// One step of an identity reset; see `reset_identity_rule`.
pub fn reset_cursor_machine_id_command(state: ResetState, event: &StepEvent) -> (r: Option<(ResetState, NextStep)>)
    ensures
        match r {
            Some((next, step)) => reset_identity_rule(state, *event) == Some((next, step@)),
            None => reset_identity_rule(state, *event) is None,
        },
{
    match (state, event) {
        (ResetState::Resetting { restart }, StepEvent::IdentityReset(Err(reason))) => Some(
            (ResetState::Finished, report(false, concat("机器 ID 重置失败: ", reason.as_str()))),
        ),
        (ResetState::Resetting { restart }, StepEvent::IdentityReset(Ok(_))) => {
            if restart {
                Some((ResetState::Restarting, NextStep::Restart))
            } else {
                Some((ResetState::Finished, report(true, "机器 ID 重置成功".to_owned())))
            }
        },
        (ResetState::Restarting, StepEvent::Restarted(Ok(_))) => Some(
            (ResetState::Finished, report(true, "机器 ID 重置成功，Cursor 已重启".to_owned())),
        ),
        (ResetState::Restarting, StepEvent::Restarted(Err(e))) => {
            let reason = e.message();
            Some((ResetState::Finished, report(true, concat("机器 ID 重置成功，但 Cursor 重启失败: ", reason.as_str()))))
        },
        _ => None,
    }
}

/// An identity reset fails as a whole only where the reset itself failed:
/// its report tells of success unless the event is a reset that failed. And
/// it asks for a restart only after a reset that succeeded.
pub proof fn lemma_reset_fails_only_with_the_reset(state: ResetState, event: StepEvent)
    ensures
        reset_identity_rule(state, event) matches Some((next, step)) ==> {
            &&& (step matches NextStepView::Report(report) ==> (report.success <==> !(event is IdentityReset
                && event->IdentityReset_0 is Err)))
            &&& (step is Restart ==> event is IdentityReset && event->IdentityReset_0 is Ok)
            &&& (next is Finished <==> step is Report)
            &&& !(step is StoreCredentials)
            &&& !(step is ResetIdentity)
        },
{
}

/// Where a change of account stands.
#[derive(Debug, Clone, Copy, PartialEq, Eq)]
pub enum ChangeState {
    /// The account was asked of the endpoint.
    Fetching,
    /// The account is known and its credentials are being written.
    StoringCredentials,
    /// The credentials are written and the device identity is being reset.
    ResettingIdentity,
    /// The identity is reset and the editor is being started again.
    Restarting,
    /// The report was given.
    Finished,
}

/// The message that tells why an answer was not usable.
pub open spec fn account_error_text(e: AccountError) -> Seq<char> {
    match e {
        AccountError::MissingCode => "响应中缺少 code 字段"@,
        AccountError::Rejected(message) => "获取账号失败: "@ + message@,
        AccountError::MissingData => "响应中缺少 data 字段"@,
        AccountError::Incomplete => "获取账号信息不完整"@,
    }
}

/// The rule of a change of account: the state and step that follow `event`
/// in `state`, or `None` where `state` does not wait for `event`.
///
/// The stages follow one another strictly: fetch, store, reset, restart. Each
/// stage that fails ends the operation with a message of its own. The one
/// token of the account is written as access token and as refresh token.
/// Once the identity is reset the operation is a success, and a restart that
/// fails is told in the message.
pub open spec fn change_account_rule(state: ChangeState, event: StepEvent) -> Option<(ChangeState, NextStepView)> {
    match (state, event) {
        (ChangeState::Fetching, StepEvent::RequestFailed(reason)) => Some(
            (ChangeState::Finished, failed("请求失败: "@ + reason@)),
        ),
        (ChangeState::Fetching, StepEvent::DecodeFailed(reason)) => Some(
            (ChangeState::Finished, failed("解析响应失败: "@ + reason@)),
        ),
        (ChangeState::Fetching, StepEvent::Answered(Err(e))) => Some(
            (ChangeState::Finished, failed(account_error_text(e))),
        ),
        (ChangeState::Fetching, StepEvent::Answered(Ok(account))) => Some(
            (
                ChangeState::StoringCredentials,
                NextStepView::StoreCredentials {
                    email: Some(account.email@),
                    access_token: Some(account.token@),
                    refresh_token: Some(account.token@),
                },
            ),
        ),
        (ChangeState::StoringCredentials, StepEvent::CredentialsStored(Err(e))) => Some(
            (ChangeState::Finished, failed("认证信息更新失败: "@ + e.message_text())),
        ),
        (ChangeState::StoringCredentials, StepEvent::CredentialsStored(Ok(_))) => Some(
            (ChangeState::ResettingIdentity, NextStepView::ResetIdentity),
        ),
        (ChangeState::ResettingIdentity, StepEvent::IdentityReset(Err(reason))) => Some(
            (ChangeState::Finished, failed("账号切换成功，但机器 ID 重置失败: "@ + reason@)),
        ),
        (ChangeState::ResettingIdentity, StepEvent::IdentityReset(Ok(_))) => Some(
            (ChangeState::Restarting, NextStepView::Restart),
        ),
        (ChangeState::Restarting, StepEvent::Restarted(Ok(_))) => Some(
            (ChangeState::Finished, succeeded("账号切换成功，Cursor 已重启"@)),
        ),
        (ChangeState::Restarting, StepEvent::Restarted(Err(e))) => Some(
            (ChangeState::Finished, succeeded("账号切换成功，但 Cursor 重启失败: "@ + e.message_text())),
        ),
        _ => None,
    }
}

/// A change of account keeps its order: each step is asked for from the
/// stage before it, and after that stage has succeeded. The credentials that
/// it asks to store carry one token in both places. It reports success from
/// its last stage only, and it ends exactly where it reports.
pub proof fn lemma_change_keeps_order(state: ChangeState, event: StepEvent)
    ensures
        change_account_rule(state, event) matches Some((next, step)) ==> {
            &&& (step matches NextStepView::StoreCredentials { email, access_token, refresh_token } ==> (state
                is Fetching && email is Some && access_token is Some && access_token == refresh_token))
            &&& (step is ResetIdentity ==> state is StoringCredentials && event is CredentialsStored
                && event->CredentialsStored_0 is Ok)
            &&& (step is Restart ==> state is ResettingIdentity && event is IdentityReset
                && event->IdentityReset_0 is Ok)
            &&& (step matches NextStepView::Report(report) ==> (report.success ==> state is Restarting))
            &&& (next is Finished <==> step is Report)
        },
{
}

fn account_error_message(e: &AccountError) -> (r: String)
    ensures
        r@ == account_error_text(*e),
{
    match e {
        AccountError::MissingCode => "响应中缺少 code 字段".to_owned(),
        AccountError::Rejected(message) => concat("获取账号失败: ", message.as_str()),
        AccountError::MissingData => "响应中缺少 data 字段".to_owned(),
        AccountError::Incomplete => "获取账号信息不完整".to_owned(),
    }
}

/// One step of a change of account; see `change_account_rule`.
pub fn change_account_command(state: ChangeState, event: &StepEvent) -> (r: Option<(ChangeState, NextStep)>)
    ensures
        match r {
            Some((next, step)) => change_account_rule(state, *event) == Some((next, step@)),
            None => change_account_rule(state, *event) is None,
        },
{
    match (state, event) {
        (ChangeState::Fetching, StepEvent::RequestFailed(reason)) => Some(
            (ChangeState::Finished, report(false, concat("请求失败: ", reason.as_str()))),
        ),
        (ChangeState::Fetching, StepEvent::DecodeFailed(reason)) => Some(
            (ChangeState::Finished, report(false, concat("解析响应失败: ", reason.as_str()))),
        ),
        (ChangeState::Fetching, StepEvent::Answered(Err(e))) => Some(
            (ChangeState::Finished, report(false, account_error_message(e))),
        ),
        (ChangeState::Fetching, StepEvent::Answered(Ok(account))) => Some(
            (
                ChangeState::StoringCredentials,
                NextStep::StoreCredentials {
                    email: Some(account.email.clone()),
                    access_token: Some(account.token.clone()),
                    refresh_token: Some(account.token.clone()),
                },
            ),
        ),
        (ChangeState::StoringCredentials, StepEvent::CredentialsStored(Err(e))) => {
            let reason = e.message();
            Some((ChangeState::Finished, report(false, concat("认证信息更新失败: ", reason.as_str()))))
        },
        (ChangeState::StoringCredentials, StepEvent::CredentialsStored(Ok(_))) => Some(
            (ChangeState::ResettingIdentity, NextStep::ResetIdentity),
        ),
        (ChangeState::ResettingIdentity, StepEvent::IdentityReset(Err(reason))) => Some(
            (ChangeState::Finished, report(false, concat("账号切换成功，但机器 ID 重置失败: ", reason.as_str()))),
        ),
        (ChangeState::ResettingIdentity, StepEvent::IdentityReset(Ok(_))) => Some(
            (ChangeState::Restarting, NextStep::Restart),
        ),
        (ChangeState::Restarting, StepEvent::Restarted(Ok(_))) => Some(
            (ChangeState::Finished, report(true, "账号切换成功，Cursor 已重启".to_owned())),
        ),
        (ChangeState::Restarting, StepEvent::Restarted(Err(e))) => {
            let reason = e.message();
            Some((ChangeState::Finished, report(true, concat("账号切换成功，但 Cursor 重启失败: ", reason.as_str()))))
        },
        _ => None,
    }
}

} // verus!
