//! The steps inside an identity reset, as a rule of sequence.
//!
//! A reset rewrites the identity document and then patches the script, where
//! there is one. The two do not weigh the same. Without the document there
//! is no reset, so whatever keeps it from being rewritten fails the reset.
//! The patch is a best effort: a patch that fails, or that does not find its
//! marker, is told in a warning that points at the backup, and the reset
//! succeeds all the same.

use crate::error::AuthError;
use crate::paths::ResetTargets;
use crate::text::{concat, optional_text};
use vstd::prelude::*;
use vstd::string::*;

verus! {

/// Where an identity reset stands.
#[derive(Debug, Clone, PartialEq, Eq)]
pub enum ResetStage {
    /// The files of the reset are being looked for.
    Locating,
    /// The identity document is being rewritten; `script` is the script to
    /// patch after it, where there is one.
    Rewriting { script: Option<String> },
    /// The script at this place is being patched.
    Patching { script: String },
    /// The result was given.
    Finished,
}

/// How a step of the reset has ended.
#[derive(Debug, PartialEq, Eq)]
pub enum ResetEvent {
    /// The files were named, or the environment did not tell them.
    Located(Result<ResetTargets, AuthError>),
    /// The document was backed up and rewritten, or the text says why not.
    Rewritten(Result<(), String>),
    /// The script was patched; `true` where the replacement stands in it,
    /// `false` where it does not. Or the text says why it could not be.
    Patched(Result<bool, String>),
}

/// What the reset asks for next.
#[derive(Debug, PartialEq, Eq)]
pub enum ResetStep {
    /// Back up and rewrite the identity document at this place.
    Rewrite(String),
    /// Back up and patch the script at this place.
    Patch(String),
    /// The reset is over: it succeeded, with a warning where the script is
    /// not patched, or it failed for the reason given.
    Finish(Result<Option<String>, String>),
}

/// A `ResetStage`, as mathematics.
pub ghost enum ResetStageView {
    Locating,
    Rewriting { script: Option<Seq<char>> },
    Patching { script: Seq<char> },
    Finished,
}

/// A `ResetStep`, as mathematics.
pub ghost enum ResetStepView {
    Rewrite(Seq<char>),
    Patch(Seq<char>),
    Succeed { warning: Option<Seq<char>> },
    Fail(Seq<char>),
}

impl View for ResetStage {
    type V = ResetStageView;

    open spec fn view(&self) -> ResetStageView {
        match *self {
            ResetStage::Locating => ResetStageView::Locating,
            ResetStage::Rewriting { script } => ResetStageView::Rewriting { script: optional_text(script) },
            ResetStage::Patching { script } => ResetStageView::Patching { script: script@ },
            ResetStage::Finished => ResetStageView::Finished,
        }
    }
}

impl View for ResetStep {
    type V = ResetStepView;

    open spec fn view(&self) -> ResetStepView {
        match *self {
            ResetStep::Rewrite(place) => ResetStepView::Rewrite(place@),
            ResetStep::Patch(place) => ResetStepView::Patch(place@),
            ResetStep::Finish(Ok(warning)) => ResetStepView::Succeed { warning: optional_text(warning) },
            ResetStep::Finish(Err(reason)) => ResetStepView::Fail(reason@),
        }
    }
}

/// Where the backups of a file are to be looked for.
pub open spec fn backups_of(place: Seq<char>) -> Seq<char> {
    place + ".backup_*"@
}

/// The warning for a script in which the replacement does not stand.
pub open spec fn unpatched_warning(script: Seq<char>) -> Seq<char> {
    "警告: main.js 文件可能未被正确修改，请检查文件内容。你可以从备份文件恢复: "@ + backups_of(script)
}

/// The warning for a script that could not be patched.
pub open spec fn failed_patch_warning(script: Seq<char>, reason: Seq<char>) -> Seq<char> {
    "警告: main.js 文件修改失败: "@ + reason + "。你可以从备份文件恢复: "@ + backups_of(script)
}

/// The rule of an identity reset: the stage and step that follow `event` in
/// `stage`, or `None` where `stage` does not wait for `event`.
///
/// The reset fails where its files are not told or the document is not
/// rewritten. Once the document is rewritten it succeeds: at once where
/// there is no script, and after the patch where there is one, whatever the
/// patch came to. A patch that failed, or after which the replacement does
/// not stand in the script, leaves a warning that names the backups.
pub open spec fn reset_rule(stage: ResetStageView, event: ResetEvent) -> Option<(ResetStageView, ResetStepView)> {
    match (stage, event) {
        (ResetStageView::Locating, ResetEvent::Located(Err(e))) => Some(
            (ResetStageView::Finished, ResetStepView::Fail(e.message_text())),
        ),
        (ResetStageView::Locating, ResetEvent::Located(Ok(targets))) => Some(
            (
                ResetStageView::Rewriting { script: optional_text(targets.script) },
                ResetStepView::Rewrite(targets.storage@),
            ),
        ),
        (ResetStageView::Rewriting { script }, ResetEvent::Rewritten(Err(reason))) => Some(
            (ResetStageView::Finished, ResetStepView::Fail(reason@)),
        ),
        (ResetStageView::Rewriting { script }, ResetEvent::Rewritten(Ok(_))) => match script {
            Some(place) => Some((ResetStageView::Patching { script: place }, ResetStepView::Patch(place))),
            None => Some((ResetStageView::Finished, ResetStepView::Succeed { warning: None })),
        },
        (ResetStageView::Patching { script }, ResetEvent::Patched(Ok(applied))) => if applied {
            Some((ResetStageView::Finished, ResetStepView::Succeed { warning: None }))
        } else {
            Some((ResetStageView::Finished, ResetStepView::Succeed { warning: Some(unpatched_warning(script)) }))
        },
        (ResetStageView::Patching { script }, ResetEvent::Patched(Err(reason))) => Some(
            (
                ResetStageView::Finished,
                ResetStepView::Succeed { warning: Some(failed_patch_warning(script, reason@)) },
            ),
        ),
        _ => None,
    }
}

fn backups(place: &str) -> (r: String)
    ensures
        r@ == backups_of(place@),
{
    concat(place, ".backup_*")
}

/// One step of an identity reset; see `reset_rule`.
pub fn reset_step(stage: ResetStage, event: &ResetEvent) -> (r: Option<(ResetStage, ResetStep)>)
    ensures
        match r {
            Some((next, step)) => reset_rule(stage@, *event) == Some((next@, step@)),
            None => reset_rule(stage@, *event) is None,
        },
{
    match (stage, event) {
        (ResetStage::Locating, ResetEvent::Located(Err(e))) => Some(
            (ResetStage::Finished, ResetStep::Finish(Err(e.message()))),
        ),
        (ResetStage::Locating, ResetEvent::Located(Ok(targets))) => Some(
            (ResetStage::Rewriting { script: targets.script.clone() }, ResetStep::Rewrite(targets.storage.clone())),
        ),
        (ResetStage::Rewriting { script }, ResetEvent::Rewritten(Err(reason))) => Some(
            (ResetStage::Finished, ResetStep::Finish(Err(reason.clone()))),
        ),
        (ResetStage::Rewriting { script }, ResetEvent::Rewritten(Ok(_))) => match script {
            Some(place) => {
                let target = place.clone();
                Some((ResetStage::Patching { script: place }, ResetStep::Patch(target)))
            },
            None => Some((ResetStage::Finished, ResetStep::Finish(Ok(None)))),
        },
        (ResetStage::Patching { script }, ResetEvent::Patched(Ok(applied))) => {
            if *applied {
                Some((ResetStage::Finished, ResetStep::Finish(Ok(None))))
            } else {
                let from = backups(script.as_str());
                let warning = concat(
                    "警告: main.js 文件可能未被正确修改，请检查文件内容。你可以从备份文件恢复: ",
                    from.as_str(),
                );
                Some((ResetStage::Finished, ResetStep::Finish(Ok(Some(warning)))))
            }
        },
        (ResetStage::Patching { script }, ResetEvent::Patched(Err(reason))) => {
            let from = backups(script.as_str());
            let mut warning = concat("警告: main.js 文件修改失败: ", reason.as_str());
            warning.append("。你可以从备份文件恢复: ");
            warning.append(from.as_str());
            assert(warning@ =~= failed_patch_warning(script@, reason@));
            Some((ResetStage::Finished, ResetStep::Finish(Ok(Some(warning)))))
        },
        _ => None,
    }
}

/// The patch never fails the reset: whatever the patch of the script came
/// to, the reset succeeds. It fails only where its files are not told or the
/// document is not rewritten, and it asks for the patch only after the
/// document was rewritten.
pub proof fn lemma_patch_never_fails_reset(stage: ResetStageView, event: ResetEvent)
    ensures
        reset_rule(stage, event) matches Some((next, step)) ==> {
            &&& (event is Patched ==> step is Succeed)
            &&& (step is Fail ==> (event is Located && event->Located_0 is Err) || (event is Rewritten
                && event->Rewritten_0 is Err))
            &&& (step is Patch ==> stage is Rewriting && event is Rewritten && event->Rewritten_0 is Ok)
            &&& (step is Rewrite ==> stage is Locating)
            &&& (next is Finished <==> step is Succeed || step is Fail)
            &&& (step matches ResetStepView::Succeed { warning } ==> (warning is Some <==> event is Patched && !(
            event->Patched_0 == Ok::<bool, String>(true))))
        },
{
}

} // verus!
