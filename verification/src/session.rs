//! The decisions of the typing window: when a typing job may be scheduled,
//! cancelled or reported, when the hotkey is armed, and what the status
//! line says. The window itself runs the timers, threads and drawing, and
//! hands each event to these functions.
use vstd::prelude::*;

use crate::hotkey::{HotkeyError, HOTKEY_LABEL};
use crate::input::Layout;

verus! {

/// The pause between units, in milliseconds, that the window starts with.
pub const DEFAULT_INTERVAL_MS: u64 = 10;

/// Where the typing job is.
#[derive(Clone, Copy, Debug, PartialEq, Eq)]
pub enum JobState {
    /// No job.
    Idle,
    /// A job waits for its delay to pass.
    Scheduled,
    /// A job is typing.
    Typing,
}

/// A report from the thread that runs a typing job.
#[derive(Debug)]
pub enum UiMessage {
    TypingStarted,
    /// The job ended; the error text when it failed.
    TypingFinished(Result<(), String>),
}

/// The mathematical value of a [`UiMessage`].
pub enum MessageView {
    TypingStarted,
    TypingFinished(Result<(), Seq<char>>),
}

impl View for UiMessage {
    type V = MessageView;

    open spec fn view(&self) -> MessageView {
        match self {
            UiMessage::TypingStarted => MessageView::TypingStarted,
            UiMessage::TypingFinished(Ok(())) => MessageView::TypingFinished(Ok(())),
            UiMessage::TypingFinished(Err(e)) => MessageView::TypingFinished(Err(e@)),
        }
    }
}

/// What the window must do when the hotkey button is pressed.
#[derive(Clone, Copy, Debug, PartialEq, Eq)]
pub enum HotkeyToggle {
    /// Drop the registered hotkey; it is off now.
    Disarm,
    /// Try to register the hotkey and report the outcome.
    Register,
}

/// The state of the typing window that its decisions read and write.
#[derive(Debug)]
pub struct AppState {
    pub text: String,
    pub interval_ms: u64,
    pub layout: Layout,
    pub status: String,
    pub job: JobState,
    pub hotkey_armed: bool,
}

/// The mathematical value of an [`AppState`].
pub struct AppView {
    pub text: Seq<char>,
    pub interval_ms: u64,
    pub layout: Layout,
    pub status: Seq<char>,
    pub job: JobState,
    pub hotkey_armed: bool,
}

impl View for AppState {
    type V = AppView;

    open spec fn view(&self) -> AppView {
        AppView {
            text: self.text@,
            interval_ms: self.interval_ms,
            layout: self.layout,
            status: self.status@,
            job: self.job,
            hotkey_armed: self.hotkey_armed,
        }
    }
}

/// Why a new job may not start, if it may not: there is nothing to type,
/// or a job is already running or scheduled.
pub open spec fn start_refusal(s: AppView) -> Option<Seq<char>> {
    if s.text.len() == 0 {
        Some("Nothing to type"@)
    } else if s.job == JobState::Typing {
        Some("Typing is already running"@)
    } else if s.job == JobState::Scheduled {
        Some("Typing is already scheduled"@)
    } else {
        None
    }
}

/// The status of a scheduled job, `countdown` being the seconds left as
/// shown to the user.
pub open spec fn countdown_status(countdown: Seq<char>) -> Seq<char> {
    "Typing in "@ + countdown + "s"@
}

/// After asking for a job: it is scheduled unless refused, and the status
/// says which.
pub open spec fn after_schedule(s: AppView, countdown: Seq<char>) -> AppView {
    match start_refusal(s) {
        Some(m) => AppView { status: m, ..s },
        None => AppView { job: JobState::Scheduled, status: countdown_status(countdown), ..s },
    }
}

/// After the hotkey asked for a job.
pub open spec fn after_hotkey_schedule(s: AppView, countdown: Seq<char>) -> AppView {
    if start_refusal(s) is None {
        AppView { status: "Typing from hotkey"@, ..after_schedule(s, countdown) }
    } else {
        after_schedule(s, countdown)
    }
}

/// After the cancel button: a scheduled job is dropped; nothing else
/// changes.
pub open spec fn after_cancel(s: AppView) -> AppView {
    if s.job == JobState::Scheduled {
        AppView { job: JobState::Idle, status: "Cancelled"@, ..s }
    } else {
        s
    }
}

/// After a report from the typing thread.
pub open spec fn after_message(s: AppView, m: MessageView) -> AppView {
    match m {
        MessageView::TypingStarted => AppView { job: JobState::Typing, status: "Typing"@, ..s },
        MessageView::TypingFinished(Ok(())) => AppView {
            job: JobState::Idle,
            status: "Done"@,
            ..s
        },
        MessageView::TypingFinished(Err(e)) => AppView { job: JobState::Idle, status: e, ..s },
    }
}

/// After the hotkey button: an armed hotkey is switched off at once; an
/// unarmed one waits for its registration.
pub open spec fn after_toggle(s: AppView) -> AppView {
    if s.hotkey_armed {
        AppView { hotkey_armed: false, status: "Hotkey off"@, ..s }
    } else {
        s
    }
}

/// After the outcome of registering the hotkey.
pub open spec fn after_registration(s: AppView, result: Result<(), Seq<char>>) -> AppView {
    match result {
        Ok(()) => AppView { hotkey_armed: true, status: HOTKEY_LABEL@ + " armed"@, ..s },
        Err(e) => AppView { status: e, ..s },
    }
}

/// The error text of a registration outcome.
pub open spec fn registration_view(result: Result<(), HotkeyError>) -> Result<(), Seq<char>> {
    match result {
        Ok(()) => Ok(()),
        Err(e) => Err(e.text()),
    }
}

/// While a job is scheduled, the status counts down.
pub open spec fn after_tick(s: AppView, countdown: Seq<char>) -> AppView {
    if s.job == JobState::Scheduled {
        AppView { status: countdown_status(countdown), ..s }
    } else {
        s
    }
}

fn countdown_text(countdown: &str) -> (r: String)
    ensures
        r@ == countdown_status(countdown@),
{
    let mut m = String::from_str("Typing in ");
    m.append(countdown);
    m.append("s");
    m
}

impl AppState {
    /// A window with no text, the default interval and layout, no job and
    /// no hotkey.
    pub fn new() -> (r: AppState)
        ensures
            r@.text.len() == 0,
            r@.interval_ms == DEFAULT_INTERVAL_MS,
            r@.layout == Layout::EnUs,
            r@.status == "Ready"@,
            r@.job == JobState::Idle,
            !r@.hotkey_armed,
    {
        AppState {
            text: String::new(),
            interval_ms: DEFAULT_INTERVAL_MS,
            layout: Layout::EnUs,
            status: String::from_str("Ready"),
            job: JobState::Idle,
            hotkey_armed: false,
        }
    }

    /// Whether a new job may start; when it may not, the status says why.
    pub fn can_start(&mut self) -> (r: bool)
        ensures
            r == (start_refusal(old(self)@) is None),
            final(self)@ == match start_refusal(old(self)@) {
                Some(m) => AppView { status: m, ..old(self)@ },
                None => old(self)@,
            },
    {
        if self.text.as_str().is_empty() {
            self.status = String::from_str("Nothing to type");
            return false;
        }
        match self.job {
            JobState::Typing => {
                self.status = String::from_str("Typing is already running");
                false
            },
            JobState::Scheduled => {
                self.status = String::from_str("Typing is already scheduled");
                false
            },
            JobState::Idle => true,
        }
    }

    /// Asks for a job; `countdown` is its delay as shown to the user. When
    /// this returns `true` the window starts the job's timer.
    pub fn schedule_type_after(&mut self, countdown: &str) -> (r: bool)
        ensures
            r == (start_refusal(old(self)@) is None),
            final(self)@ == after_schedule(old(self)@, countdown@),
    {
        if !self.can_start() {
            return false;
        }
        self.job = JobState::Scheduled;
        self.status = countdown_text(countdown);
        true
    }

    /// Asks for a job on behalf of the hotkey.
    pub fn schedule_hotkey_type(&mut self, countdown: &str) -> (r: bool)
        ensures
            r == (start_refusal(old(self)@) is None),
            final(self)@ == after_hotkey_schedule(old(self)@, countdown@),
    {
        if self.schedule_type_after(countdown) {
            self.status = String::from_str("Typing from hotkey");
            true
        } else {
            false
        }
    }

    /// Drops a scheduled job. When this returns `true` the window stops the
    /// job's timer.
    pub fn cancel_pending(&mut self) -> (r: bool)
        ensures
            r == (old(self)@.job == JobState::Scheduled),
            final(self)@ == after_cancel(old(self)@),
    {
        match self.job {
            JobState::Scheduled => {
                self.job = JobState::Idle;
                self.status = String::from_str("Cancelled");
                true
            },
            _ => false,
        }
    }

    /// The hotkey button: switches an armed hotkey off, or asks the window
    /// to register it.
    pub fn toggle_hotkey(&mut self) -> (r: HotkeyToggle)
        ensures
            r == (if old(self)@.hotkey_armed {
                HotkeyToggle::Disarm
            } else {
                HotkeyToggle::Register
            }),
            final(self)@ == after_toggle(old(self)@),
    {
        if self.hotkey_armed {
            self.hotkey_armed = false;
            self.status = String::from_str("Hotkey off");
            HotkeyToggle::Disarm
        } else {
            HotkeyToggle::Register
        }
    }

    /// Records the outcome of registering the hotkey.
    pub fn finish_hotkey_registration(&mut self, result: Result<(), HotkeyError>)
        ensures
            final(self)@ == after_registration(old(self)@, registration_view(result)),
    {
        match result {
            Ok(()) => {
                self.hotkey_armed = true;
                let mut m = String::from_str(HOTKEY_LABEL);
                m.append(" armed");
                self.status = m;
            },
            Err(e) => {
                self.status = e.message();
            },
        }
    }

    /// Records a report from the typing thread.
    pub fn receive_message(&mut self, message: UiMessage)
        ensures
            final(self)@ == after_message(old(self)@, message@),
    {
        match message {
            UiMessage::TypingStarted => {
                self.job = JobState::Typing;
                self.status = String::from_str("Typing");
            },
            UiMessage::TypingFinished(Ok(())) => {
                self.job = JobState::Idle;
                self.status = String::from_str("Done");
            },
            UiMessage::TypingFinished(Err(error)) => {
                self.job = JobState::Idle;
                self.status = error;
            },
        }
    }

    /// Refreshes the countdown of a scheduled job.
    pub fn update_pending_status(&mut self, countdown: &str)
        ensures
            final(self)@ == after_tick(old(self)@, countdown@),
    {
        match self.job {
            JobState::Scheduled => {
                self.status = countdown_text(countdown);
            },
            _ => {},
        }
    }

    /// Whether the Type button is enabled: no job is scheduled or running.
    pub fn type_enabled(&self) -> (r: bool)
        ensures
            r == (self@.job == JobState::Idle),
    {
        match self.job {
            JobState::Idle => true,
            _ => false,
        }
    }

    /// Whether the Cancel button is enabled: a job is scheduled.
    pub fn cancel_enabled(&self) -> (r: bool)
        ensures
            r == (self@.job == JobState::Scheduled),
    {
        match self.job {
            JobState::Scheduled => true,
            _ => false,
        }
    }

    /// Whether the window must keep redrawing: a job is scheduled or
    /// running, or the hotkey is armed.
    pub fn needs_repaint(&self) -> (r: bool)
        ensures
            r == (self@.job != JobState::Idle || self@.hotkey_armed),
    {
        self.hotkey_armed || match self.job {
            JobState::Idle => false,
            _ => true,
        }
    }
}

/// A job is scheduled exactly when there is text and no job is scheduled or
/// running; otherwise the job state stays as it was. So at most one job is
/// ever scheduled or running, whether the button or the hotkey asks.
pub proof fn lemma_one_job_at_a_time(s: AppView, countdown: Seq<char>)
    ensures
        after_schedule(s, countdown).job == if s.text.len() > 0 && s.job == JobState::Idle {
            JobState::Scheduled
        } else {
            s.job
        },
        after_hotkey_schedule(s, countdown).job == after_schedule(s, countdown).job,
{
}

/// Cancelling only drops a scheduled job: a running job keeps typing, and
/// with no job nothing changes at all.
pub proof fn lemma_cancel_only_drops_scheduled(s: AppView)
    ensures
        s.job == JobState::Scheduled ==> after_cancel(s).job == JobState::Idle,
        s.job != JobState::Scheduled ==> after_cancel(s) == s,
{
}

/// Once the typing thread reports, no job is left waiting: the job is
/// running after it starts and gone after it ends.
pub proof fn lemma_reports_end_waiting(s: AppView, m: MessageView)
    ensures
        after_message(s, m).job != JobState::Scheduled,
        m is TypingStarted ==> after_message(s, m).job == JobState::Typing,
        m is TypingFinished ==> after_message(s, m).job == JobState::Idle,
{
}

/// A full run: from an idle window with text, asking for a job, the job
/// starting and finishing well leaves the window idle and saying "Done",
/// ready for the next job.
pub proof fn lemma_successful_run(s: AppView, countdown: Seq<char>)
    requires
        s.text.len() > 0,
        s.job == JobState::Idle,
    ensures
        ({
            let scheduled = after_schedule(s, countdown);
            let started = after_message(scheduled, MessageView::TypingStarted);
            let done = after_message(started, MessageView::TypingFinished(Ok(())));
            &&& scheduled.job == JobState::Scheduled
            &&& started.job == JobState::Typing
            &&& done.job == JobState::Idle
            &&& done.status == "Done"@
            &&& start_refusal(done) is None
        }),
{
}

/// The hotkey button switches an armed hotkey off; arming it and pressing
/// the button again leaves it off.
pub proof fn lemma_hotkey_toggle_round_trip(s: AppView)
    ensures
        s.hotkey_armed ==> !after_toggle(s).hotkey_armed,
        !s.hotkey_armed ==> after_toggle(s) == s,
        !after_toggle(after_registration(after_toggle(s), Ok(()))).hotkey_armed,
        after_registration(after_toggle(s), Ok(())).hotkey_armed,
{
}

/// A failed registration leaves the hotkey as it was and shows the error.
pub proof fn lemma_failed_registration_keeps_hotkey(s: AppView, e: Seq<char>)
    ensures
        after_registration(s, Err(e)).hotkey_armed == s.hotkey_armed,
        after_registration(s, Err(e)).status == e,
{
}

/// No decision of the window changes the text, the interval or the layout
/// that the user chose.
pub proof fn lemma_decisions_keep_settings(
    s: AppView,
    countdown: Seq<char>,
    m: MessageView,
    r: Result<(), Seq<char>>,
)
    ensures
        ({
            let outs = seq![
                after_schedule(s, countdown),
                after_hotkey_schedule(s, countdown),
                after_cancel(s),
                after_message(s, m),
                after_toggle(s),
                after_registration(s, r),
                after_tick(s, countdown),
            ];
            forall|i: int|
                0 <= i < outs.len() ==> {
                    &&& #[trigger] outs[i].text == s.text
                    &&& outs[i].interval_ms == s.interval_ms
                    &&& outs[i].layout == s.layout
                }
        }),
{
}

/// A job that fails leaves no job behind and shows the failure's own text.
pub proof fn lemma_failed_run_shows_its_error(s: AppView, e: Seq<char>)
    ensures
        after_message(s, MessageView::TypingFinished(Err(e))).status == e,
        after_message(s, MessageView::TypingFinished(Err(e))).job == JobState::Idle,
{
}

/// A refused request changes nothing but the status.
pub proof fn lemma_refusal_changes_only_status(s: AppView, countdown: Seq<char>)
    requires
        (start_refusal(s) is Some),
    ensures
        after_schedule(s, countdown) == (AppView {
            status: after_schedule(s, countdown).status,
            ..s
        }),
        after_hotkey_schedule(s, countdown) == after_schedule(s, countdown),
{
}

/// Once armed, the status names the hotkey.
pub proof fn lemma_armed_status_names_hotkey(s: AppView)
    ensures
        after_registration(s, Ok(())).status.take(HOTKEY_LABEL@.len() as int) == HOTKEY_LABEL@,
{
    let st = after_registration(s, Ok(())).status;
    assert(st.take(HOTKEY_LABEL@.len() as int) =~= HOTKEY_LABEL@);
}

/// A scheduled job's status shows its countdown.
pub proof fn lemma_scheduled_status_shows_countdown(s: AppView, countdown: Seq<char>)
    requires
        (start_refusal(s) is None),
    ensures
        after_schedule(s, countdown).job == JobState::Scheduled,
        after_schedule(s, countdown).status.subrange(
            "Typing in "@.len() as int,
            ("Typing in "@.len() + countdown.len()) as int,
        ) == countdown,
{
    let st = after_schedule(s, countdown).status;
    assert(st.subrange(
        "Typing in "@.len() as int,
        ("Typing in "@.len() + countdown.len()) as int,
    ) =~= countdown);
}

} // verus!
