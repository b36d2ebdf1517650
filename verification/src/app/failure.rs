//! The blocking failure screen and the failures each operation reports.
use vstd::prelude::*;

use crate::app::{month_text, with_month, Key};
use crate::month::id::MonthId;
use crate::repository::SyncOutcome;
use crate::state::route_state::{FailureState, RetryTarget};
use crate::text::{owned, push_str};

verus! {

/// What a keypress on the failure screen asks for.
#[derive(Clone, Debug)]
pub enum FailureStep {
    Shutdown,
    Retry(RetryTarget),
    Stay(FailureState),
}

/// `q` and `Esc` quit, `r` retries the failed operation, other keys do
/// nothing.
pub fn failure_key(state: FailureState, key: Key) -> (r: FailureStep)
    ensures
        if key == Key::Char('q') || key == Key::Esc {
            r is Shutdown
        } else if key == Key::Char('r') {
            r == FailureStep::Retry(state.retry)
        } else {
            r == FailureStep::Stay(state)
        },
{
    match key {
        Key::Char('q') | Key::Esc => FailureStep::Shutdown,
        Key::Char('r') => FailureStep::Retry(state.retry),
        _ => FailureStep::Stay(state),
    }
}

/// The failure shown when the repository cannot be opened or listed.
pub fn repository_blocked(message: String) -> (r: FailureState)
    ensures
        r.title@ == "Repository blocked"@,
        r.message == message,
        r.retry is RepositoryGate,
{
    FailureState { title: owned("Repository blocked"), message, retry: RetryTarget::RepositoryGate }
}

/// The failure shown when a month cannot be opened.
pub fn open_failed(month: MonthId, message: String) -> (r: FailureState)
    ensures
        r.title@ == "Could not open "@ + month_text(month),
        r.message == message,
        r.retry == RetryTarget::OpenMonth(month),
{
    FailureState { title: with_month("Could not open ", month), message, retry: RetryTarget::OpenMonth(month) }
}

/// The failure shown when a month's draft cannot be created.
pub fn create_failed(month: MonthId, message: String) -> (r: FailureState)
    ensures
        r.title@ == "Could not create "@ + month_text(month),
        r.message == message,
        r.retry == RetryTarget::CreateMonth(month),
{
    FailureState {
        title: with_month("Could not create ", month),
        message,
        retry: RetryTarget::CreateMonth(month),
    }
}

/// The failure shown when pushing committed changes fails again.
pub fn push_failed(selected: Option<MonthId>, message: String) -> (r: FailureState)
    ensures
        r.title@ == "Could not sync repository changes"@,
        r.message == message,
        r.retry == RetryTarget::PushNavigation(selected),
{
    FailureState {
        title: owned("Could not sync repository changes"),
        message,
        retry: RetryTarget::PushNavigation(selected),
    }
}

/// What follows a rename, delete or push: reload the month list (selecting
/// a month), or block on a failure.
#[derive(Clone, Debug)]
pub enum AfterChange {
    Reload(Option<MonthId>),
    Blocked(FailureState),
}

/// What follows renaming `source` to `target`.
///
/// A rename committed locally whose push failed blocks with a retry of the
/// push; a rename that failed outright blocks with a retry of the rename.
pub fn after_rename(source: MonthId, target: MonthId, outcome: Result<SyncOutcome, String>) -> (r:
    AfterChange)
    ensures
        match outcome {
            Ok(SyncOutcome::Synced) => r == AfterChange::Reload(Some(target)),
            Ok(SyncOutcome::PushFailed(m)) => r matches AfterChange::Blocked(f) && f.title@
                == "Could not sync rename "@ + month_text(source) + " -> "@ + month_text(target)
                && f.message@ == "Renamed "@ + month_text(source) + " to "@ + month_text(target)
                + " locally and committed it, but push failed: "@ + m@ && f.retry
                == RetryTarget::PushNavigation(Some(target)),
            Err(m) => r matches AfterChange::Blocked(f) && f.title@ == "Could not rename "@
                + month_text(source) && f.message == m && f.retry == (RetryTarget::RenameMonth {
                source,
                target,
            }),
        },
{
    match outcome {
        Ok(SyncOutcome::Synced) => AfterChange::Reload(Some(target)),
        Ok(SyncOutcome::PushFailed(m)) => {
            let mut title = with_month("Could not sync rename ", source);
            push_str(&mut title, " -> ");
            let tk = target.key();
            push_str(&mut title, tk.as_str());
            let mut message = with_month("Renamed ", source);
            push_str(&mut message, " to ");
            push_str(&mut message, tk.as_str());
            push_str(&mut message, " locally and committed it, but push failed: ");
            push_str(&mut message, m.as_str());
            AfterChange::Blocked(
                FailureState { title, message, retry: RetryTarget::PushNavigation(Some(target)) },
            )
        },
        Err(m) => AfterChange::Blocked(
            FailureState {
                title: with_month("Could not rename ", source),
                message: m,
                retry: RetryTarget::RenameMonth { source, target },
            },
        ),
    }
}

/// What follows deleting `month`.
///
/// A deletion committed locally whose push failed blocks with a retry of the
/// push; a deletion that failed outright blocks with a retry of the deletion.
pub fn after_delete(month: MonthId, outcome: Result<SyncOutcome, String>) -> (r: AfterChange)
    ensures
        match outcome {
            Ok(SyncOutcome::Synced) => r == AfterChange::Reload(None),
            Ok(SyncOutcome::PushFailed(m)) => r matches AfterChange::Blocked(f) && f.title@
                == "Could not sync deletion of "@ + month_text(month) && f.message@ == "Deleted "@
                + month_text(month) + " locally and committed it, but push failed: "@ + m@
                && f.retry == RetryTarget::PushNavigation(None),
            Err(m) => r matches AfterChange::Blocked(f) && f.title@ == "Could not delete "@
                + month_text(month) && f.message == m && f.retry == RetryTarget::DeleteMonth(month),
        },
{
    match outcome {
        Ok(SyncOutcome::Synced) => AfterChange::Reload(None),
        Ok(SyncOutcome::PushFailed(m)) => {
            let mut message = with_month("Deleted ", month);
            push_str(&mut message, " locally and committed it, but push failed: ");
            push_str(&mut message, m.as_str());
            AfterChange::Blocked(
                FailureState {
                    title: with_month("Could not sync deletion of ", month),
                    message,
                    retry: RetryTarget::PushNavigation(None),
                },
            )
        },
        Err(m) => AfterChange::Blocked(
            FailureState {
                title: with_month("Could not delete ", month),
                message: m,
                retry: RetryTarget::DeleteMonth(month),
            },
        ),
    }
}

/// What follows retrying a push: reload on success, block again otherwise.
pub fn after_push(selected: Option<MonthId>, outcome: Result<(), String>) -> (r: AfterChange)
    ensures
        match outcome {
            Ok(()) => r == AfterChange::Reload(selected),
            Err(m) => r matches AfterChange::Blocked(f) && f.title@
                == "Could not sync repository changes"@ && f.message == m && f.retry
                == RetryTarget::PushNavigation(selected),
        },
{
    match outcome {
        Ok(()) => AfterChange::Reload(selected),
        Err(m) => AfterChange::Blocked(push_failed(selected, m)),
    }
}

} // verus!
