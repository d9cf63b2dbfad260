//! The decisions of answering a prompt on a terminal: one answer checked against the
//! screen it was planned for, or every question of a multi-question dialog in turn.
//!
//! Reading the screen, planning keys from it and writing them are done by the caller;
//! these functions decide, from what came back, whether to go on and what to report.

use vstd::prelude::*;
use crate::text::str_eq;

verus! {

broadcast use vstd::string::group_string_axioms;

/// How many screens a run over all questions reads at most.
pub const SELECT_ALL_MAX_STEPS: usize = 24;

/// How an answer ended, as the tool reports it.
#[derive(Clone, Copy, PartialEq, Eq, Debug)]
pub enum RunStatus {
    /// Keys were sent and the screen moved on.
    Sent,
    /// Keys were sent but it is not known whether they took effect.
    Unverified,
    /// The screen was not the one the answer was planned for; nothing was sent.
    Stale,
    /// The screen cannot take this answer; nothing was sent.
    Unsupported,
    /// Sending stopped half way; the answer must not be sent again.
    PastedOnly,
    /// Nothing could be sent.
    Failed,
}

/// Errors of a request to answer every question.
#[derive(Clone, Copy, PartialEq, Eq, Debug)]
pub enum AnswerRequestError {
    /// `selectAll` came without `option_indices`.
    MissingIndices,
    /// `option_indices` was empty.
    EmptyIndices,
}

/// A `selectAll` request needs one option index per question, at least one.
pub fn check_select_all_request(option_indices: Option<Vec<u32>>) -> (r: Result<Vec<u32>, AnswerRequestError>)
    ensures
        match option_indices {
            None => r == Err::<Vec<u32>, AnswerRequestError>(AnswerRequestError::MissingIndices),
            Some(v) => if v@.len() == 0 {
                r == Err::<Vec<u32>, AnswerRequestError>(AnswerRequestError::EmptyIndices)
            } else {
                r is Ok && r->Ok_0@ == v@
            },
        },
{
    match option_indices {
        None => Err(AnswerRequestError::MissingIndices),
        Some(v) => if v.len() == 0 {
            Err(AnswerRequestError::EmptyIndices)
        } else {
            Ok(v)
        },
    }
}

/// What to do with a single answer once the screen has been read and keys planned for it.
#[derive(Debug)]
pub enum SingleAnswerPlan {
    /// The screen changed since it was inspected: send nothing.
    Stale,
    /// The screen cannot take the answer (the planner's reason): send nothing.
    Unsupported(String),
    /// Send the planned keys.
    Send,
}

/// The plan for a single answer: nothing is sent unless the screen still has the
/// fingerprint the answer was planned for and keys could be planned for it.
pub fn plan_single_answer(expect_fingerprint: &str, fingerprint: &str, keys: Result<(), String>) -> (r:
    SingleAnswerPlan)
    ensures
        expect_fingerprint@ != fingerprint@ ==> r == SingleAnswerPlan::Stale,
        expect_fingerprint@ == fingerprint@ ==> match keys {
            Ok(_) => r == SingleAnswerPlan::Send,
            Err(e) => r == SingleAnswerPlan::Unsupported(e),
        },
{
    if !str_eq(expect_fingerprint, fingerprint) {
        return SingleAnswerPlan::Stale;
    }
    match keys {
        Ok(_) => SingleAnswerPlan::Send,
        Err(e) => SingleAnswerPlan::Unsupported(e),
    }
}

/// The status of a single answer whose keys were sent one write each: a failed write
/// is `Failed` when no key had gone out yet and `PastedOnly` after; otherwise the
/// answer is `Sent` when the screen changed and `Unverified` when it did not.
pub fn single_answer_status(keys_written: usize, write_failed: bool, screen_changed: bool) -> (r: RunStatus)
    ensures
        r == (if write_failed {
            if keys_written == 0 { RunStatus::Failed } else { RunStatus::PastedOnly }
        } else if screen_changed {
            RunStatus::Sent
        } else {
            RunStatus::Unverified
        }),
{
    if write_failed {
        if keys_written == 0 { RunStatus::Failed } else { RunStatus::PastedOnly }
    } else if screen_changed {
        RunStatus::Sent
    } else {
        RunStatus::Unverified
    }
}

/// What the screen planner proposes for the screen it read during a run over all questions.
#[derive(Debug)]
pub enum SelectAllPlan {
    /// Nothing is left to answer on this screen.
    Done,
    /// The screen is not one the run may answer (the planner's reason).
    Refuse(String),
    /// The review screen: confirm with this option.
    Submit { option_index: u32 },
    /// Question `qidx` is on screen: answer it with this option.
    Answer { qidx: usize, option_index: u32 },
}

/// A settled read of the screen.
#[derive(Debug)]
pub struct Screen {
    pub fingerprint: String,
    /// Two reads in a row gave the same fingerprint.
    pub stable: bool,
    /// Questions whose tab shows them answered.
    pub answered_tabs: usize,
    /// The terminal is back at its input box.
    pub input_box: bool,
    pub plan: SelectAllPlan,
}

/// What the caller hands back after doing what the run asked.
#[derive(Debug)]
pub enum ScreenEvent {
    /// The screen was read.
    Read(Screen),
    /// The screen could not be read.
    ReadFailed(String),
    /// Keys for the chosen option were planned, or the planner refused (its reason).
    KeysPlanned(Result<(), String>),
    /// The planned keys were written one by one: how many went out, and the error that
    /// stopped the rest, if one did.
    KeysWritten { written: usize, failure: Option<String> },
    /// The wait for the screen to move on ended.
    Settled { answered_tabs: Option<usize>, progressed: bool, past_deadline: bool },
}

/// Which screen the report shows as the state after the run.
#[derive(Clone, Copy, PartialEq, Eq, Debug)]
pub enum AfterScreen {
    NoScreen,
    LastRead,
    LastSettled,
}

/// Why a run over all questions ended.
#[derive(Debug)]
pub enum StopReason {
    /// It ended as it should.
    Completed,
    ReadFailed(String),
    Stale,
    /// The screen did not settle where keys were needed.
    NotSettled,
    /// The first screen had no question left.
    NothingToAnswer,
    /// The dialog went away, but not provably answered.
    ClosedUnconfirmed,
    Refused(String),
    /// The planner named a question already answered, or one past the last.
    QuestionOutOfOrder,
    KeysRefused(String),
    WriteFailed(String),
    /// The review screen stayed after the confirmation was sent.
    SubmitUnchanged,
    /// The screen did not move on to the next question.
    NoProgress,
    DeadlinePassed,
    StepsExhausted,
}

/// The report of a finished run.
#[derive(Debug)]
pub struct Outcome {
    pub status: RunStatus,
    /// Questions the screen showed answered.
    pub answered: usize,
    pub after: AfterScreen,
    pub reason: StopReason,
}

/// What the run asks of the caller next.
#[derive(Debug)]
pub enum SelectAllAction {
    /// Read the screen until it settles.
    ReadScreen,
    /// Plan the keys that pick this option on the screen just read.
    PlanKeys { option_index: u32 },
    /// Write the planned keys, one write each.
    SendKeys,
    /// Wait for the screen to move on: off the review screen when `on_review`, else to
    /// the next question.
    AwaitProgress { on_review: bool },
    /// Report this and stop.
    Finish(Outcome),
    /// The screen could not be read before any key was sent: the call fails.
    Fail(String),
    /// The run is over; nothing more to do.
    Stop,
}

/// Where a run stands.
#[derive(Clone, Copy, PartialEq, Eq, Debug)]
pub enum Phase {
    AwaitRead,
    AwaitKeys { option_index: u32, on_review: bool },
    AwaitWrite { on_review: bool },
    AwaitSettle { on_review: bool },
    Over,
}

/// A run answering every question of a multi-question dialog.
pub struct SelectAllRun {
    /// The fingerprint the first screen must have.
    pub expect: String,
    /// How many option indices were given.
    pub question_count: usize,
    /// Screens read so far, less one.
    pub step: usize,
    /// Some key has gone out.
    pub keys_sent: bool,
    pub answered: usize,
    /// The last question keys were planned for.
    pub last_qidx: Option<usize>,
    /// Every question keys were planned for, in order.
    pub dispatched: Ghost<Seq<usize>>,
    pub phase: Phase,
}

pub open spec fn max_usize(a: usize, b: usize) -> usize {
    if a < b { b } else { a }
}

pub open spec fn status_after_keys(r: SelectAllRun) -> RunStatus {
    if r.keys_sent { RunStatus::Unverified } else { RunStatus::Unsupported }
}

/// The run with its phase set to over.
pub open spec fn ended(r: SelectAllRun) -> SelectAllRun {
    SelectAllRun { phase: Phase::Over, ..r }
}

/// The planner's proposal keeps to the list and answers no question twice.
pub open spec fn plan_in_order(r: SelectAllRun, plan: SelectAllPlan) -> bool {
    match plan {
        SelectAllPlan::Answer { qidx, .. } => qidx < r.question_count && match r.last_qidx {
            Some(l) => l < qidx,
            None => true,
        },
        _ => true,
    }
}

/// The next run and action after a screen was read.
pub open spec fn after_read(r: SelectAllRun, scr: Screen) -> (SelectAllRun, SelectAllAction) {
    if r.step == 0 && scr.fingerprint@ != r.expect@ {
        (ended(r), SelectAllAction::Finish(Outcome {
            status: RunStatus::Stale, answered: 0, after: AfterScreen::LastRead, reason: StopReason::Stale,
        }))
    } else {
        let ans = max_usize(r.answered, scr.answered_tabs);
        let r1 = SelectAllRun { answered: ans, ..r };
        let sends = scr.plan is Submit || scr.plan is Answer;
        if !plan_in_order(r, scr.plan) {
            (ended(r1), SelectAllAction::Finish(Outcome {
                status: status_after_keys(r), answered: ans, after: AfterScreen::LastRead,
                reason: StopReason::QuestionOutOfOrder,
            }))
        } else if !scr.stable && sends {
            (ended(r1), SelectAllAction::Finish(Outcome {
                status: status_after_keys(r), answered: ans, after: AfterScreen::LastRead,
                reason: StopReason::NotSettled,
            }))
        } else {
            match scr.plan {
                SelectAllPlan::Done => if r.step == 0 {
                    (ended(r1), SelectAllAction::Finish(Outcome {
                        status: RunStatus::Unsupported, answered: ans, after: AfterScreen::LastRead,
                        reason: StopReason::NothingToAnswer,
                    }))
                } else {
                    let all_dispatched = match r.last_qidx {
                        Some(i) => i + 1 >= r.question_count,
                        None => false,
                    };
                    let closed = scr.input_box || ans >= r.question_count;
                    if all_dispatched && closed {
                        (ended(r1), SelectAllAction::Finish(Outcome {
                            status: RunStatus::Sent, answered: ans, after: AfterScreen::LastRead,
                            reason: StopReason::Completed,
                        }))
                    } else {
                        (ended(r1), SelectAllAction::Finish(Outcome {
                            status: RunStatus::Unverified, answered: ans, after: AfterScreen::LastRead,
                            reason: StopReason::ClosedUnconfirmed,
                        }))
                    }
                },
                SelectAllPlan::Refuse(why) => (ended(r1), SelectAllAction::Finish(Outcome {
                    status: status_after_keys(r), answered: ans, after: AfterScreen::LastRead,
                    reason: StopReason::Refused(why),
                })),
                SelectAllPlan::Submit { option_index } => (
                    SelectAllRun { phase: Phase::AwaitKeys { option_index, on_review: true }, ..r1 },
                    SelectAllAction::PlanKeys { option_index },
                ),
                SelectAllPlan::Answer { qidx, option_index } => (
                    SelectAllRun {
                        last_qidx: Some(qidx),
                        dispatched: Ghost(r.dispatched@.push(qidx)),
                        phase: Phase::AwaitKeys { option_index, on_review: false },
                        ..r1
                    },
                    SelectAllAction::PlanKeys { option_index },
                ),
            }
        }
    }
}

/// The next run and action after the wait for progress ended.
pub open spec fn after_settle(
    r: SelectAllRun,
    on_review: bool,
    answered_tabs: Option<usize>,
    progressed: bool,
    past_deadline: bool,
) -> (SelectAllRun, SelectAllAction) {
    let ans = match answered_tabs {
        Some(t) => max_usize(r.answered, t),
        None => r.answered,
    };
    let r1 = SelectAllRun { answered: ans, ..r };
    let finish = |status: RunStatus, reason: StopReason|
        (ended(r1), SelectAllAction::Finish(Outcome { status, answered: ans, after: AfterScreen::LastSettled, reason }));
    if on_review {
        if progressed {
            finish(RunStatus::Sent, StopReason::Completed)
        } else {
            finish(RunStatus::Unverified, StopReason::SubmitUnchanged)
        }
    } else if !progressed {
        finish(RunStatus::Unverified, StopReason::NoProgress)
    } else if past_deadline {
        finish(RunStatus::Unverified, StopReason::DeadlinePassed)
    } else if r.step + 1 >= SELECT_ALL_MAX_STEPS {
        finish(RunStatus::Unverified, StopReason::StepsExhausted)
    } else {
        (SelectAllRun { step: (r.step + 1) as usize, phase: Phase::AwaitRead, ..r1 }, SelectAllAction::ReadScreen)
    }
}

/// One step of a run: from where it stands and what came back, the next run and what to
/// do. An event the run is not waiting for changes nothing and repeats the request.
pub open spec fn select_all_next(r: SelectAllRun, ev: ScreenEvent) -> (SelectAllRun, SelectAllAction) {
    match r.phase {
        Phase::Over => (r, SelectAllAction::Stop),
        Phase::AwaitRead => match ev {
            ScreenEvent::Read(scr) => after_read(r, scr),
            ScreenEvent::ReadFailed(e) => if !r.keys_sent {
                (ended(r), SelectAllAction::Fail(e))
            } else {
                (ended(r), SelectAllAction::Finish(Outcome {
                    status: RunStatus::PastedOnly, answered: r.answered, after: AfterScreen::NoScreen,
                    reason: StopReason::ReadFailed(e),
                }))
            },
            _ => (r, SelectAllAction::ReadScreen),
        },
        Phase::AwaitKeys { option_index, on_review } => match ev {
            ScreenEvent::KeysPlanned(Ok(_)) => (
                SelectAllRun { phase: Phase::AwaitWrite { on_review }, ..r },
                SelectAllAction::SendKeys,
            ),
            ScreenEvent::KeysPlanned(Err(why)) => (ended(r), SelectAllAction::Finish(Outcome {
                status: status_after_keys(r), answered: r.answered, after: AfterScreen::LastRead,
                reason: StopReason::KeysRefused(why),
            })),
            _ => (r, SelectAllAction::PlanKeys { option_index }),
        },
        Phase::AwaitWrite { on_review } => match ev {
            ScreenEvent::KeysWritten { written, failure } => {
                let r1 = SelectAllRun { keys_sent: r.keys_sent || written > 0, ..r };
                match failure {
                    Some(e) => (ended(r1), SelectAllAction::Finish(Outcome {
                        status: if r1.keys_sent { RunStatus::PastedOnly } else { RunStatus::Failed },
                        answered: r.answered, after: AfterScreen::NoScreen, reason: StopReason::WriteFailed(e),
                    })),
                    None => (
                        SelectAllRun { phase: Phase::AwaitSettle { on_review }, ..r1 },
                        SelectAllAction::AwaitProgress { on_review },
                    ),
                }
            },
            _ => (r, SelectAllAction::SendKeys),
        },
        Phase::AwaitSettle { on_review } => match ev {
            ScreenEvent::Settled { answered_tabs, progressed, past_deadline } =>
                after_settle(r, on_review, answered_tabs, progressed, past_deadline),
            _ => (r, SelectAllAction::AwaitProgress { on_review }),
        },
    }
}

impl SelectAllRun {
    /// Questions got keys in list order, each at most once; before the first read nothing
    /// has been sent or counted; the step count stays below its limit.
    pub open spec fn wf(&self) -> bool {
        &&& forall|i: int, j: int| 0 <= i < j < self.dispatched@.len()
            ==> #[trigger] self.dispatched@[i] < #[trigger] self.dispatched@[j]
        &&& forall|i: int| 0 <= i < self.dispatched@.len() ==> #[trigger] self.dispatched@[i] < self.question_count
        &&& self.last_qidx == (if self.dispatched@.len() == 0 {
            None::<usize>
        } else {
            Some(self.dispatched@.last())
        })
        &&& self.step < SELECT_ALL_MAX_STEPS
        &&& (self.step == 0 && self.phase == Phase::AwaitRead) ==> {
            &&& !self.keys_sent
            &&& self.answered == 0
            &&& self.dispatched@.len() == 0
        }
    }

    /// A run over `question_count` questions whose first screen must have
    /// `expect_fingerprint`. Its first request is to read the screen.
    pub fn new(expect_fingerprint: String, question_count: usize) -> (r: Self)
        ensures
            r.wf(),
            r.expect@ == expect_fingerprint@,
            r.question_count == question_count,
            r.step == 0,
            !r.keys_sent,
            r.answered == 0,
            r.last_qidx is None,
            r.dispatched@.len() == 0,
            r.phase == Phase::AwaitRead,
    {
        SelectAllRun {
            expect: expect_fingerprint,
            question_count,
            step: 0,
            keys_sent: false,
            answered: 0,
            last_qidx: None,
            dispatched: Ghost(Seq::empty()),
            phase: Phase::AwaitRead,
        }
    }
}

/// A run whose first screen is not the one the answers were planned for ends there as
/// stale, with no key sent and no question counted.
pub proof fn lemma_first_screen_mismatch_is_stale(r: SelectAllRun, scr: Screen)
    requires
        r.wf(),
        r.step == 0,
        r.phase == Phase::AwaitRead,
        scr.fingerprint@ != r.expect@,
    ensures
        select_all_next(r, ScreenEvent::Read(scr)).1 == SelectAllAction::Finish(Outcome {
            status: RunStatus::Stale,
            answered: 0,
            after: AfterScreen::LastRead,
            reason: StopReason::Stale,
        }),
        !select_all_next(r, ScreenEvent::Read(scr)).0.keys_sent,
        select_all_next(r, ScreenEvent::Read(scr)).0.dispatched@.len() == 0,
        select_all_next(r, ScreenEvent::Read(scr)).0.phase == Phase::Over,
{
}

/// In a well-formed run no question has been given keys twice.
pub proof fn lemma_each_question_once(r: SelectAllRun)
    requires
        r.wf(),
    ensures
        forall|i: int, j: int| 0 <= i < r.dispatched@.len() && 0 <= j < r.dispatched@.len() && i != j
            ==> #[trigger] r.dispatched@[i] != #[trigger] r.dispatched@[j],
{
    assert forall|i: int, j: int| 0 <= i < r.dispatched@.len() && 0 <= j < r.dispatched@.len() && i != j
        implies #[trigger] r.dispatched@[i] != #[trigger] r.dispatched@[j] by {
        if i < j {
            assert(r.dispatched@[i] < r.dispatched@[j]);
        } else {
            assert(r.dispatched@[j] < r.dispatched@[i]);
        }
    }
}

/// A step either plans keys for no new question, or for one question of the list that
/// lies beyond every question planned before; and it asks to plan keys only then or for
/// the review screen.
pub proof fn lemma_step_dispatches_fresh_question(r: SelectAllRun, ev: ScreenEvent)
    requires
        r.wf(),
    ensures
        select_all_next(r, ev).0.dispatched@ == r.dispatched@ || exists|q: usize| {
            &&& q < r.question_count
            &&& (forall|k: int| 0 <= k < r.dispatched@.len() ==> #[trigger] r.dispatched@[k] < q)
            &&& select_all_next(r, ev).0.dispatched@ == r.dispatched@.push(q)
        },
{
    let n = select_all_next(r, ev).0;
    if n.dispatched@ != r.dispatched@ {
        let q = n.dispatched@.last();
        assert(n.dispatched@ == r.dispatched@.push(q));
        assert forall|k: int| 0 <= k < r.dispatched@.len() implies #[trigger] r.dispatched@[k] < q by {
            if k < r.dispatched@.len() - 1 {
                assert(r.dispatched@[k] < r.dispatched@[r.dispatched@.len() - 1]);
            }
        }
    }
}

/// A finished run stays finished: every later event changes nothing and asks nothing.
pub proof fn lemma_finished_run_stays_finished(r: SelectAllRun, ev: ScreenEvent)
    requires
        r.phase == Phase::Over,
    ensures
        select_all_next(r, ev) == (r, SelectAllAction::Stop),
{
}

/// A run ends with `Sent` only after its last question was given keys: on the review
/// screen's confirmation, or when the dialog is gone after keys went to the last
/// question.
pub proof fn lemma_sent_only_when_done(r: SelectAllRun, ev: ScreenEvent)
    requires
        r.wf(),
        select_all_next(r, ev).1 matches SelectAllAction::Finish(o) && o.status == RunStatus::Sent,
    ensures
        r.phase == (Phase::AwaitSettle { on_review: true }) || (r.last_qidx matches Some(i) && i + 1
            >= r.question_count),
{
}

/// Once keys went to the last question, a screen with nothing left to answer ends the run
/// as sent when the dialog is provably gone: every question's tab shows it answered, or the
/// terminal is back at its input box. Whatever the fingerprint of that later screen.
pub proof fn lemma_closed_dialog_after_last_question_is_sent(r: SelectAllRun, scr: Screen)
    requires
        r.wf(),
        r.phase == Phase::AwaitRead,
        r.step > 0,
        r.last_qidx matches Some(i) && i + 1 == r.question_count,
        scr.plan is Done,
        scr.answered_tabs >= r.question_count || scr.input_box,
    ensures
        select_all_next(r, ScreenEvent::Read(scr)).1 matches SelectAllAction::Finish(o) && o.status
            == RunStatus::Sent && o.reason is Completed && o.answered >= scr.answered_tabs && o.answered
            >= r.answered,
        select_all_next(r, ScreenEvent::Read(scr)).0.phase == Phase::Over,
{
}

/// A screen with nothing left to answer ends a run that has not given keys to its last
/// question as unverified, never as sent, whatever the tabs show.
pub proof fn lemma_closed_dialog_before_last_question_is_unverified(r: SelectAllRun, scr: Screen)
    requires
        r.wf(),
        r.phase == Phase::AwaitRead,
        r.step > 0,
        !(r.last_qidx matches Some(i) && i + 1 >= r.question_count),
        scr.plan is Done,
    ensures
        select_all_next(r, ScreenEvent::Read(scr)).1 matches SelectAllAction::Finish(o) && o.status
            == RunStatus::Unverified && o.reason is ClosedUnconfirmed,
{
}

fn max_of(a: usize, b: usize) -> (r: usize)
    ensures
        r == max_usize(a, b),
{
    if a < b { b } else { a }
}

fn end_run(run: &mut SelectAllRun, outcome: Outcome) -> (a: SelectAllAction)
    ensures
        *final(run) == ended(*old(run)),
        a == SelectAllAction::Finish(outcome),
{
    run.phase = Phase::Over;
    SelectAllAction::Finish(outcome)
}

fn on_read(run: &mut SelectAllRun, scr: Screen) -> (a: SelectAllAction)
    requires
        old(run).wf(),
        old(run).phase == Phase::AwaitRead,
    ensures
        (*final(run), a) == after_read(*old(run), scr),
{
    if run.step == 0 && !str_eq(run.expect.as_str(), scr.fingerprint.as_str()) {
        return end_run(run, Outcome {
            status: RunStatus::Stale, answered: 0, after: AfterScreen::LastRead, reason: StopReason::Stale,
        });
    }
    let ghost r0 = *run;
    let prior = if run.keys_sent { RunStatus::Unverified } else { RunStatus::Unsupported };
    let ans = max_of(run.answered, scr.answered_tabs);
    run.answered = ans;
    let in_order = match &scr.plan {
        SelectAllPlan::Answer { qidx, .. } => *qidx < run.question_count && match run.last_qidx {
            Some(l) => l < *qidx,
            None => true,
        },
        _ => true,
    };
    if !in_order {
        return end_run(run, Outcome {
            status: prior, answered: ans, after: AfterScreen::LastRead, reason: StopReason::QuestionOutOfOrder,
        });
    }
    let sends = match &scr.plan {
        SelectAllPlan::Submit { .. } => true,
        SelectAllPlan::Answer { .. } => true,
        _ => false,
    };
    if !scr.stable && sends {
        return end_run(run, Outcome {
            status: prior, answered: ans, after: AfterScreen::LastRead, reason: StopReason::NotSettled,
        });
    }
    match scr.plan {
        SelectAllPlan::Done => {
            if run.step == 0 {
                return end_run(run, Outcome {
                    status: RunStatus::Unsupported, answered: ans, after: AfterScreen::LastRead,
                    reason: StopReason::NothingToAnswer,
                });
            }
            let all_dispatched = match run.last_qidx {
                Some(i) => i >= run.question_count || run.question_count - i <= 1,
                None => false,
            };
            let closed = scr.input_box || ans >= run.question_count;
            if all_dispatched && closed {
                end_run(run, Outcome {
                    status: RunStatus::Sent, answered: ans, after: AfterScreen::LastRead, reason: StopReason::Completed,
                })
            } else {
                end_run(run, Outcome {
                    status: RunStatus::Unverified, answered: ans, after: AfterScreen::LastRead,
                    reason: StopReason::ClosedUnconfirmed,
                })
            }
        },
        SelectAllPlan::Refuse(why) => end_run(run, Outcome {
            status: prior, answered: ans, after: AfterScreen::LastRead, reason: StopReason::Refused(why),
        }),
        SelectAllPlan::Submit { option_index } => {
            run.phase = Phase::AwaitKeys { option_index, on_review: true };
            SelectAllAction::PlanKeys { option_index }
        },
        SelectAllPlan::Answer { qidx, option_index } => {
            run.last_qidx = Some(qidx);
            run.dispatched = Ghost(r0.dispatched@.push(qidx));
            run.phase = Phase::AwaitKeys { option_index, on_review: false };
            SelectAllAction::PlanKeys { option_index }
        },
    }
}

fn on_settle(run: &mut SelectAllRun, on_review: bool, answered_tabs: Option<usize>, progressed: bool, past_deadline: bool)
    -> (a: SelectAllAction)
    requires
        old(run).wf(),
    ensures
        (*final(run), a) == after_settle(*old(run), on_review, answered_tabs, progressed, past_deadline),
{
    let ans = match answered_tabs {
        Some(t) => max_of(run.answered, t),
        None => run.answered,
    };
    run.answered = ans;
    if on_review {
        if progressed {
            return end_run(run, Outcome {
                status: RunStatus::Sent, answered: ans, after: AfterScreen::LastSettled, reason: StopReason::Completed,
            });
        }
        return end_run(run, Outcome {
            status: RunStatus::Unverified, answered: ans, after: AfterScreen::LastSettled,
            reason: StopReason::SubmitUnchanged,
        });
    }
    if !progressed {
        return end_run(run, Outcome {
            status: RunStatus::Unverified, answered: ans, after: AfterScreen::LastSettled,
            reason: StopReason::NoProgress,
        });
    }
    if past_deadline {
        return end_run(run, Outcome {
            status: RunStatus::Unverified, answered: ans, after: AfterScreen::LastSettled,
            reason: StopReason::DeadlinePassed,
        });
    }
    if run.step + 1 >= SELECT_ALL_MAX_STEPS {
        return end_run(run, Outcome {
            status: RunStatus::Unverified, answered: ans, after: AfterScreen::LastSettled,
            reason: StopReason::StepsExhausted,
        });
    }
    run.step = run.step + 1;
    run.phase = Phase::AwaitRead;
    SelectAllAction::ReadScreen
}

/// One step of a run over all questions: takes what the caller observed, returns what to
/// do next, as [`select_all_next`] states. The run stays well formed.
pub fn select_all_step(run: &mut SelectAllRun, ev: ScreenEvent) -> (a: SelectAllAction)
    requires
        old(run).wf(),
    ensures
        (*final(run), a) == select_all_next(*old(run), ev),
        final(run).wf(),
{
    let ghost r0 = *run;
    let a = match run.phase {
        Phase::Over => SelectAllAction::Stop,
        Phase::AwaitRead => match ev {
            ScreenEvent::Read(scr) => on_read(run, scr),
            ScreenEvent::ReadFailed(e) => {
                if !run.keys_sent {
                    run.phase = Phase::Over;
                    SelectAllAction::Fail(e)
                } else {
                    let answered = run.answered;
                    end_run(run, Outcome {
                        status: RunStatus::PastedOnly, answered, after: AfterScreen::NoScreen,
                        reason: StopReason::ReadFailed(e),
                    })
                }
            },
            _ => SelectAllAction::ReadScreen,
        },
        Phase::AwaitKeys { option_index, on_review } => match ev {
            ScreenEvent::KeysPlanned(Ok(_)) => {
                run.phase = Phase::AwaitWrite { on_review };
                SelectAllAction::SendKeys
            },
            ScreenEvent::KeysPlanned(Err(why)) => {
                let status = if run.keys_sent { RunStatus::Unverified } else { RunStatus::Unsupported };
                let answered = run.answered;
                end_run(run, Outcome {
                    status, answered, after: AfterScreen::LastRead, reason: StopReason::KeysRefused(why),
                })
            },
            _ => SelectAllAction::PlanKeys { option_index },
        },
        Phase::AwaitWrite { on_review } => match ev {
            ScreenEvent::KeysWritten { written, failure } => {
                run.keys_sent = run.keys_sent || written > 0;
                match failure {
                    Some(e) => {
                        let status = if run.keys_sent { RunStatus::PastedOnly } else { RunStatus::Failed };
                        let answered = run.answered;
                        end_run(run, Outcome {
                            status, answered, after: AfterScreen::NoScreen, reason: StopReason::WriteFailed(e),
                        })
                    },
                    None => {
                        run.phase = Phase::AwaitSettle { on_review };
                        SelectAllAction::AwaitProgress { on_review }
                    },
                }
            },
            _ => SelectAllAction::SendKeys,
        },
        Phase::AwaitSettle { on_review } => match ev {
            ScreenEvent::Settled { answered_tabs, progressed, past_deadline } =>
                on_settle(run, on_review, answered_tabs, progressed, past_deadline),
            _ => SelectAllAction::AwaitProgress { on_review },
        },
    };
    proof {
        let r1 = *run;
        if r1.dispatched@.len() > r0.dispatched@.len() {
            assert(r1.dispatched@ == r0.dispatched@.push(r1.dispatched@.last()));
        }
    }
    a
}

} // verus!
