use cursor_helper::account::{AccountError, Credentials};
use cursor_helper::commands::{
    change_account_command, reset_cursor_machine_id_command, update_cursor_auth, ApiResponse, ChangeState,
    NextStep, ResetState, StepEvent,
};
use cursor_helper::error::{AuthError, ProcessError};

fn report(success: bool, message: &str) -> NextStep {
    NextStep::Report(ApiResponse { success, message: String::from(message) })
}

#[test]
fn credential_update_report() {
    assert_eq!(
        update_cursor_auth(&Ok(())),
        ApiResponse { success: true, message: String::from("认证信息更新成功") }
    );
    assert_eq!(
        update_cursor_auth(&Err(AuthError::NoUpdates)),
        ApiResponse { success: false, message: String::from("认证信息更新失败: 未提供任何更新值") }
    );
    assert_eq!(
        update_cursor_auth(&Err(AuthError::Database(String::from("locked")))),
        ApiResponse { success: false, message: String::from("认证信息更新失败: 数据库错误: locked") }
    );
}

#[test]
fn reset_without_restart_ends_after_the_reset() {
    let state = ResetState::Resetting { restart: false };
    assert_eq!(
        reset_cursor_machine_id_command(state, &StepEvent::IdentityReset(Ok(()))),
        Some((ResetState::Finished, report(true, "机器 ID 重置成功")))
    );
}

#[test]
fn reset_failure_is_a_failure() {
    for restart in [false, true] {
        assert_eq!(
            reset_cursor_machine_id_command(
                ResetState::Resetting { restart },
                &StepEvent::IdentityReset(Err(String::from("disk full")))
            ),
            Some((ResetState::Finished, report(false, "机器 ID 重置失败: disk full")))
        );
    }
}

#[test]
fn reset_with_restart_asks_for_the_restart() {
    let state = ResetState::Resetting { restart: true };
    assert_eq!(
        reset_cursor_machine_id_command(state, &StepEvent::IdentityReset(Ok(()))),
        Some((ResetState::Restarting, NextStep::Restart))
    );
    assert_eq!(
        reset_cursor_machine_id_command(ResetState::Restarting, &StepEvent::Restarted(Ok(()))),
        Some((ResetState::Finished, report(true, "机器 ID 重置成功，Cursor 已重启")))
    );
}

#[test]
fn failed_restart_after_reset_is_a_partial_success() {
    assert_eq!(
        reset_cursor_machine_id_command(ResetState::Restarting, &StepEvent::Restarted(Err(ProcessError::NotFound))),
        Some((ResetState::Finished, report(true, "机器 ID 重置成功，但 Cursor 重启失败: 未找到 Cursor 可执行文件")))
    );
}

#[test]
fn reset_ignores_events_it_does_not_wait_for() {
    assert_eq!(reset_cursor_machine_id_command(ResetState::Finished, &StepEvent::IdentityReset(Ok(()))), None);
    assert_eq!(reset_cursor_machine_id_command(ResetState::Restarting, &StepEvent::IdentityReset(Ok(()))), None);
    assert_eq!(
        reset_cursor_machine_id_command(ResetState::Resetting { restart: true }, &StepEvent::Restarted(Ok(()))),
        None
    );
    assert_eq!(
        reset_cursor_machine_id_command(
            ResetState::Resetting { restart: true },
            &StepEvent::RequestFailed(String::new())
        ),
        None
    );
}

#[test]
fn change_account_runs_through_its_stages() {
    let account = Credentials { email: String::from("a@b.com"), token: String::from("T") };
    assert_eq!(
        change_account_command(ChangeState::Fetching, &StepEvent::Answered(Ok(account))),
        Some((
            ChangeState::StoringCredentials,
            NextStep::StoreCredentials {
                email: Some(String::from("a@b.com")),
                access_token: Some(String::from("T")),
                refresh_token: Some(String::from("T")),
            }
        ))
    );
    assert_eq!(
        change_account_command(ChangeState::StoringCredentials, &StepEvent::CredentialsStored(Ok(()))),
        Some((ChangeState::ResettingIdentity, NextStep::ResetIdentity))
    );
    assert_eq!(
        change_account_command(ChangeState::ResettingIdentity, &StepEvent::IdentityReset(Ok(()))),
        Some((ChangeState::Restarting, NextStep::Restart))
    );
    assert_eq!(
        change_account_command(ChangeState::Restarting, &StepEvent::Restarted(Ok(()))),
        Some((ChangeState::Finished, report(true, "账号切换成功，Cursor 已重启")))
    );
}

#[test]
fn change_account_tells_each_failure_apart() {
    assert_eq!(
        change_account_command(ChangeState::Fetching, &StepEvent::RequestFailed(String::from("timeout"))),
        Some((ChangeState::Finished, report(false, "请求失败: timeout")))
    );
    assert_eq!(
        change_account_command(ChangeState::Fetching, &StepEvent::DecodeFailed(String::from("eof"))),
        Some((ChangeState::Finished, report(false, "解析响应失败: eof")))
    );
    assert_eq!(
        change_account_command(ChangeState::Fetching, &StepEvent::Answered(Err(AccountError::MissingCode))),
        Some((ChangeState::Finished, report(false, "响应中缺少 code 字段")))
    );
    assert_eq!(
        change_account_command(
            ChangeState::Fetching,
            &StepEvent::Answered(Err(AccountError::Rejected(String::from("busy"))))
        ),
        Some((ChangeState::Finished, report(false, "获取账号失败: busy")))
    );
    assert_eq!(
        change_account_command(ChangeState::Fetching, &StepEvent::Answered(Err(AccountError::MissingData))),
        Some((ChangeState::Finished, report(false, "响应中缺少 data 字段")))
    );
    assert_eq!(
        change_account_command(ChangeState::Fetching, &StepEvent::Answered(Err(AccountError::Incomplete))),
        Some((ChangeState::Finished, report(false, "获取账号信息不完整")))
    );
    assert_eq!(
        change_account_command(
            ChangeState::StoringCredentials,
            &StepEvent::CredentialsStored(Err(AuthError::Io(String::from("denied"))))
        ),
        Some((ChangeState::Finished, report(false, "认证信息更新失败: IO 错误: denied")))
    );
    assert_eq!(
        change_account_command(ChangeState::ResettingIdentity, &StepEvent::IdentityReset(Err(String::from("x")))),
        Some((ChangeState::Finished, report(false, "账号切换成功，但机器 ID 重置失败: x")))
    );
}

#[test]
fn change_account_with_failed_restart_is_a_partial_success() {
    assert_eq!(
        change_account_command(
            ChangeState::Restarting,
            &StepEvent::Restarted(Err(ProcessError::TerminationIncomplete))
        ),
        Some((
            ChangeState::Finished,
            report(true, "账号切换成功，但 Cursor 重启失败: 无法正确关闭现有 Cursor 进程, 请手动重启 Cursor")
        ))
    );
    assert_eq!(
        change_account_command(
            ChangeState::Restarting,
            &StepEvent::Restarted(Err(ProcessError::SpawnFailed(String::from("no exec"))))
        ),
        Some((ChangeState::Finished, report(true, "账号切换成功，但 Cursor 重启失败: 启动 Cursor 失败")))
    );
}

#[test]
fn change_account_ignores_events_out_of_turn() {
    assert_eq!(change_account_command(ChangeState::Fetching, &StepEvent::Restarted(Ok(()))), None);
    assert_eq!(change_account_command(ChangeState::Finished, &StepEvent::RequestFailed(String::new())), None);
    assert_eq!(change_account_command(ChangeState::Restarting, &StepEvent::IdentityReset(Ok(()))), None);
    assert_eq!(
        change_account_command(ChangeState::StoringCredentials, &StepEvent::IdentityReset(Ok(()))),
        None
    );
}

#[test]
fn error_messages() {
    assert_eq!(AuthError::Environment(String::from("x")).message(), "环境错误: x");
    assert_eq!(AuthError::Database(String::from("x")).message(), "数据库错误: x");
    assert_eq!(AuthError::Io(String::from("x")).message(), "IO 错误: x");
    assert_eq!(AuthError::NoUpdates.message(), "未提供任何更新值");
    assert_eq!(ProcessError::NotFound.message(), "未找到 Cursor 可执行文件");
}
