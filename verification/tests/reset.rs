use cursor_helper::error::AuthError;
use cursor_helper::paths::ResetTargets;
use cursor_helper::reset::{reset_step, ResetEvent, ResetStage, ResetStep};

fn targets(script: Option<&str>) -> ResetTargets {
    ResetTargets { storage: String::from("/home/u/storage.json"), script: script.map(String::from) }
}

fn patching() -> ResetStage {
    ResetStage::Patching { script: String::from("/app/main.js") }
}

#[test]
fn reset_without_script_ends_after_the_document() {
    let (stage, step) = reset_step(ResetStage::Locating, &ResetEvent::Located(Ok(targets(None)))).unwrap();
    assert_eq!(step, ResetStep::Rewrite(String::from("/home/u/storage.json")));
    assert_eq!(stage, ResetStage::Rewriting { script: None });
    assert_eq!(
        reset_step(stage, &ResetEvent::Rewritten(Ok(()))),
        Some((ResetStage::Finished, ResetStep::Finish(Ok(None))))
    );
}

#[test]
fn reset_with_script_patches_after_the_document() {
    let (stage, step) =
        reset_step(ResetStage::Locating, &ResetEvent::Located(Ok(targets(Some("/app/main.js"))))).unwrap();
    assert_eq!(step, ResetStep::Rewrite(String::from("/home/u/storage.json")));
    let (stage, step) = reset_step(stage, &ResetEvent::Rewritten(Ok(()))).unwrap();
    assert_eq!(step, ResetStep::Patch(String::from("/app/main.js")));
    assert_eq!(stage, patching());
    assert_eq!(
        reset_step(stage, &ResetEvent::Patched(Ok(true))),
        Some((ResetStage::Finished, ResetStep::Finish(Ok(None))))
    );
}

#[test]
fn reset_fails_without_its_files_or_its_document() {
    assert_eq!(
        reset_step(
            ResetStage::Locating,
            &ResetEvent::Located(Err(AuthError::Environment(String::from("无法获取用户主目录"))))
        ),
        Some((ResetStage::Finished, ResetStep::Finish(Err(String::from("环境错误: 无法获取用户主目录")))))
    );
    assert_eq!(
        reset_step(
            ResetStage::Rewriting { script: Some(String::from("/app/main.js")) },
            &ResetEvent::Rewritten(Err(String::from("disk full")))
        ),
        Some((ResetStage::Finished, ResetStep::Finish(Err(String::from("disk full")))))
    );
}

#[test]
fn patch_that_does_not_land_is_a_warning() {
    assert_eq!(
        reset_step(patching(), &ResetEvent::Patched(Ok(false))),
        Some((
            ResetStage::Finished,
            ResetStep::Finish(Ok(Some(String::from(
                "警告: main.js 文件可能未被正确修改，请检查文件内容。你可以从备份文件恢复: /app/main.js.backup_*"
            ))))
        ))
    );
}

#[test]
fn patch_that_fails_is_a_warning() {
    assert_eq!(
        reset_step(patching(), &ResetEvent::Patched(Err(String::from("denied")))),
        Some((
            ResetStage::Finished,
            ResetStep::Finish(Ok(Some(String::from(
                "警告: main.js 文件修改失败: denied。你可以从备份文件恢复: /app/main.js.backup_*"
            ))))
        ))
    );
}

#[test]
fn reset_takes_no_event_out_of_turn() {
    assert_eq!(reset_step(ResetStage::Locating, &ResetEvent::Rewritten(Ok(()))), None);
    assert_eq!(reset_step(ResetStage::Rewriting { script: None }, &ResetEvent::Patched(Ok(true))), None);
    assert_eq!(reset_step(patching(), &ResetEvent::Rewritten(Ok(()))), None);
    assert_eq!(reset_step(ResetStage::Finished, &ResetEvent::Located(Ok(targets(None)))), None);
    assert_eq!(reset_step(ResetStage::Finished, &ResetEvent::Patched(Ok(false))), None);
}
