//! The background monitor's decisions: which check comes next, how long to
//! sleep, when to announce a state change, and how retries back off. The
//! checks themselves and the sleeping are done by the caller, who feeds
//! each result back in.
use vstd::prelude::*;

use crate::config::AppConfig;
use crate::network::CampusEnvironment;
use crate::portal::{LoginOutcome, LoginStatus, ProbeStatus};
use crate::text;

verus! {

/// The largest retry step: the last entry of the back-off table.
pub const MAX_RETRY_STEP: usize = 4;

/// Seconds to wait before the next attempt after `step` failed ones:
/// 5, 15, 30, 60, then 120 from then on.
pub open spec fn backoff_secs(step: nat) -> u64 {
    if step == 0 {
        5
    } else if step == 1 {
        15
    } else if step == 2 {
        30
    } else if step == 3 {
        60
    } else {
        120
    }
}

/// The retry step after one more failure: one further along the table,
/// staying on its last entry.
pub open spec fn next_retry_step(step: nat) -> nat {
    if step + 1 < MAX_RETRY_STEP {
        step + 1
    } else {
        MAX_RETRY_STEP as nat
    }
}

/// The back-off delay for a retry step.
pub fn retry_delay(step: usize) -> (secs: u64)
    requires
        step <= MAX_RETRY_STEP,
    ensures
        secs == backoff_secs(step as nat),
{
    if step == 0 {
        5
    } else if step == 1 {
        15
    } else if step == 2 {
        30
    } else if step == 3 {
        60
    } else {
        120
    }
}

/// The delay never shrinks from one failure to the next, and stays
/// between 5 and 120 seconds.
pub proof fn lemma_backoff_grows(step: nat)
    requires
        step <= MAX_RETRY_STEP,
    ensures
        backoff_secs(step) <= backoff_secs(next_retry_step(step)),
        5 <= backoff_secs(step) <= 120,
        next_retry_step(step) <= MAX_RETRY_STEP,
{
}

/// The retry step after `k` failures in a row from `step`.
pub open spec fn step_after_failures(step: nat, k: nat) -> nat
    decreases k,
{
    if k == 0 {
        step
    } else {
        next_retry_step(step_after_failures(step, (k - 1) as nat))
    }
}

/// From a fresh start, `k` failures in a row leave the retry step at
/// `min(k, 4)`: the waits run 5, 15, 30, 60 seconds, then 120 for good.
pub proof fn lemma_failures_reach_cap(k: nat)
    ensures
        step_after_failures(0, k) == (if k < MAX_RETRY_STEP {
            k
        } else {
            MAX_RETRY_STEP as nat
        }),
    decreases k,
{
    if k > 0 {
        lemma_failures_reach_cap((k - 1) as nat);
    }
}

/// What the monitor last announced.
#[derive(Debug, Clone, Copy, PartialEq, Eq, Structural)]
pub enum LinkState {
    OnCampus,
    OffCampus,
    Online,
    Portal,
    Unreachable,
}

pub open spec fn link_state_name(s: LinkState) -> Seq<char> {
    match s {
        LinkState::OnCampus => "on-campus"@,
        LinkState::OffCampus => "off-campus"@,
        LinkState::Online => "online"@,
        LinkState::Portal => "portal"@,
        LinkState::Unreachable => "unreachable"@,
    }
}

impl LinkState {
    pub fn name(&self) -> (r: String)
        ensures
            r@ == link_state_name(*self),
    {
        match self {
            LinkState::OnCampus => String::from_str("on-campus"),
            LinkState::OffCampus => String::from_str("off-campus"),
            LinkState::Online => String::from_str("online"),
            LinkState::Portal => String::from_str("portal"),
            LinkState::Unreachable => String::from_str("unreachable"),
        }
    }
}

/// What the caller does next.
#[derive(Debug, Clone, Copy, PartialEq, Eq, Structural)]
pub enum DaemonAction {
    /// Probe the connectivity URL and report with `on_probe`.
    Probe,
    /// Submit the login and report with `on_login`.
    Login,
    /// Sleep this many seconds, then check the campus environment again
    /// and report with `on_environment`.
    Sleep(u64),
}

/// Lines to print, and what to do next.
pub struct DaemonStep {
    pub messages: Vec<String>,
    pub action: DaemonAction,
}

/// The monitor's memory between checks.
pub struct DaemonState {
    /// How many failures in a row the back-off has counted (capped).
    pub retry_step: usize,
    /// The state last announced; nothing after a successful login.
    pub last_state: Option<LinkState>,
    /// The sleep once the network is fine, in seconds.
    pub online_sleep_secs: u64,
}

/// The announcement for moving to `next`, if it differs from `last`.
pub open spec fn state_change_messages(last: Option<LinkState>, next: LinkState) -> Seq<
    Seq<char>,
> {
    if last == Some(next) {
        Seq::empty()
    } else {
        seq!["state changed: "@ + link_state_name(next)]
    }
}

/// A state is announced once: moving to the state last announced says
/// nothing, and moving to any other state says `state changed: <name>`
/// exactly once.
pub proof fn lemma_state_announced_once(last: Option<LinkState>, next: LinkState)
    ensures
        state_change_messages(last, next).len() == 0 <==> last == Some(next),
        state_change_messages(Some(next), next).len() == 0,
        last != Some(next) ==> state_change_messages(last, next) == seq![
            "state changed: "@ + link_state_name(next),
        ],
{
}

impl DaemonState {
    pub open spec fn wf(&self) -> bool {
        self.retry_step <= MAX_RETRY_STEP
    }

    /// A monitor that has announced nothing and counted no failure.
    pub fn new(config: &AppConfig) -> (r: DaemonState)
        ensures
            r.wf(),
            r.retry_step == 0,
            r.last_state is None,
            r.online_sleep_secs == config.daemon.online_check_interval_secs,
    {
        DaemonState {
            retry_step: 0,
            last_state: None,
            online_sleep_secs: config.daemon.online_check_interval_secs,
        }
    }

    fn emit_state(&mut self, out: &mut Vec<String>, next: LinkState)
        ensures
            final(self).last_state == Some(next),
            final(self).retry_step == old(self).retry_step,
            final(self).online_sleep_secs == old(self).online_sleep_secs,
            text::strings_view(final(out)@) == text::strings_view(old(out)@)
                + state_change_messages(old(self).last_state, next),
    {
        let changed = match self.last_state {
            Some(s) => s != next,
            None => true,
        };
        if changed {
            let mut m = String::from_str("state changed: ");
            let n = next.name();
            m.append(n.as_str());
            let ghost before = out@;
            out.push(m);
            assert(text::strings_view(out@) =~= text::strings_view(before) + seq![
                "state changed: "@ + link_state_name(next),
            ]);
        } else {
            assert(text::strings_view(out@) =~= text::strings_view(out@) + Seq::<
                Seq<char>,
            >::empty());
        }
        self.last_state = Some(next);
    }

    fn push_line(out: &mut Vec<String>, head: &str, tail: &str)
        ensures
            text::strings_view(final(out)@) == text::strings_view(old(out)@).push(head@ + tail@),
    {
        let mut m = String::from_str(head);
        m.append(tail);
        out.push(m);
        assert(text::strings_view(final(out)@) =~= text::strings_view(old(out)@).push(
            head@ + tail@,
        ));
    }

    fn fail_retry(&mut self) -> (secs: u64)
        requires
            old(self).wf(),
        ensures
            final(self).wf(),
            secs == backoff_secs(old(self).retry_step as nat),
            final(self).retry_step == next_retry_step(old(self).retry_step as nat),
            final(self).last_state == old(self).last_state,
            final(self).online_sleep_secs == old(self).online_sleep_secs,
    {
        let secs = retry_delay(self.retry_step);
        self.retry_step = if self.retry_step + 1 < MAX_RETRY_STEP {
            self.retry_step + 1
        } else {
            MAX_RETRY_STEP
        };
        secs
    }

    /// After the campus check: on campus, announce it and probe next; off
    /// campus, forget past failures and sleep the online interval.
    pub fn on_environment(&mut self, env: &CampusEnvironment) -> (step: DaemonStep)
        requires
            old(self).wf(),
        ensures
            final(self).wf(),
            final(self).online_sleep_secs == old(self).online_sleep_secs,
            match env {
                CampusEnvironment::OnCampus(reason) => {
                    &&& final(self).last_state == Some(LinkState::OnCampus)
                    &&& final(self).retry_step == old(self).retry_step
                    &&& step.action == DaemonAction::Probe
                    &&& text::strings_view(step.messages@) == state_change_messages(
                        old(self).last_state,
                        LinkState::OnCampus,
                    ).push("campus network detected: "@ + reason@)
                },
                CampusEnvironment::OffCampus(reason) => {
                    &&& final(self).last_state == Some(LinkState::OffCampus)
                    &&& final(self).retry_step == 0
                    &&& step.action == DaemonAction::Sleep(old(self).online_sleep_secs)
                    &&& text::strings_view(step.messages@) == state_change_messages(
                        old(self).last_state,
                        LinkState::OffCampus,
                    ).push("campus network not detected: "@ + reason@)
                },
            },
    {
        let mut messages: Vec<String> = Vec::new();
        assert(text::strings_view(messages@) =~= Seq::<Seq<char>>::empty());
        match env {
            CampusEnvironment::OnCampus(reason) => {
                self.emit_state(&mut messages, LinkState::OnCampus);
                Self::push_line(&mut messages, "campus network detected: ", reason.as_str());
                DaemonStep { messages, action: DaemonAction::Probe }
            },
            CampusEnvironment::OffCampus(reason) => {
                self.emit_state(&mut messages, LinkState::OffCampus);
                self.retry_step = 0;
                Self::push_line(&mut messages, "campus network not detected: ", reason.as_str());
                DaemonStep { messages, action: DaemonAction::Sleep(self.online_sleep_secs) }
            },
        }
    }

    /// After the probe: online resets the back-off and sleeps the online
    /// interval; the portal calls for a login; an unreachable probe waits
    /// the current back-off and counts a failure.
    pub fn on_probe(&mut self, probe: &ProbeStatus) -> (step: DaemonStep)
        requires
            old(self).wf(),
        ensures
            final(self).wf(),
            final(self).online_sleep_secs == old(self).online_sleep_secs,
            match probe {
                ProbeStatus::Online => {
                    &&& final(self).last_state == Some(LinkState::Online)
                    &&& final(self).retry_step == 0
                    &&& step.action == DaemonAction::Sleep(old(self).online_sleep_secs)
                    &&& text::strings_view(step.messages@) == state_change_messages(
                        old(self).last_state,
                        LinkState::Online,
                    )
                },
                ProbeStatus::NeedsLogin => {
                    &&& final(self).last_state == Some(LinkState::Portal)
                    &&& final(self).retry_step == old(self).retry_step
                    &&& step.action == DaemonAction::Login
                    &&& text::strings_view(step.messages@) == state_change_messages(
                        old(self).last_state,
                        LinkState::Portal,
                    )
                },
                ProbeStatus::Unreachable(detail) => {
                    &&& final(self).last_state == Some(LinkState::Unreachable)
                    &&& final(self).retry_step == next_retry_step(old(self).retry_step as nat)
                    &&& step.action == DaemonAction::Sleep(
                        backoff_secs(old(self).retry_step as nat),
                    )
                    &&& text::strings_view(step.messages@) == state_change_messages(
                        old(self).last_state,
                        LinkState::Unreachable,
                    ).push("probe failed: "@ + detail@)
                },
            },
    {
        let mut messages: Vec<String> = Vec::new();
        assert(text::strings_view(messages@) =~= Seq::<Seq<char>>::empty());
        match probe {
            ProbeStatus::Online => {
                self.emit_state(&mut messages, LinkState::Online);
                self.retry_step = 0;
                DaemonStep { messages, action: DaemonAction::Sleep(self.online_sleep_secs) }
            },
            ProbeStatus::NeedsLogin => {
                self.emit_state(&mut messages, LinkState::Portal);
                DaemonStep { messages, action: DaemonAction::Login }
            },
            ProbeStatus::Unreachable(detail) => {
                self.emit_state(&mut messages, LinkState::Unreachable);
                Self::push_line(&mut messages, "probe failed: ", detail.as_str());
                let secs = self.fail_retry();
                DaemonStep { messages, action: DaemonAction::Sleep(secs) }
            },
        }
    }

    /// After a login attempt: success resets the back-off, forgets the last
    /// announcement and sleeps the online interval; failure waits the
    /// current back-off and counts a failure.
    pub fn on_login(&mut self, outcome: &LoginOutcome) -> (step: DaemonStep)
        requires
            old(self).wf(),
        ensures
            final(self).wf(),
            final(self).online_sleep_secs == old(self).online_sleep_secs,
            outcome.status == LoginStatus::Success ==> {
                &&& final(self).last_state is None
                &&& final(self).retry_step == 0
                &&& step.action == DaemonAction::Sleep(old(self).online_sleep_secs)
                &&& text::strings_view(step.messages@) == seq![
                    "login successful: "@ + outcome.detail@,
                ]
            },
            outcome.status == LoginStatus::Failed ==> {
                &&& final(self).last_state == old(self).last_state
                &&& final(self).retry_step == next_retry_step(old(self).retry_step as nat)
                &&& step.action == DaemonAction::Sleep(backoff_secs(old(self).retry_step as nat))
                &&& text::strings_view(step.messages@) == seq![
                    "login failed: "@ + outcome.detail@,
                ]
            },
    {
        let mut messages: Vec<String> = Vec::new();
        assert(text::strings_view(messages@) =~= Seq::<Seq<char>>::empty());
        match outcome.status {
            LoginStatus::Success => {
                Self::push_line(&mut messages, "login successful: ", outcome.detail.as_str());
                self.retry_step = 0;
                self.last_state = None;
                assert(text::strings_view(messages@) =~= seq![
                    "login successful: "@ + outcome.detail@,
                ]);
                DaemonStep { messages, action: DaemonAction::Sleep(self.online_sleep_secs) }
            },
            LoginStatus::Failed => {
                Self::push_line(&mut messages, "login failed: ", outcome.detail.as_str());
                let secs = self.fail_retry();
                assert(text::strings_view(messages@) =~= seq!["login failed: "@ + outcome.detail@]);
                DaemonStep { messages, action: DaemonAction::Sleep(secs) }
            },
        }
    }
}

} // verus!
