//! Starting the backend's remote-control server and waiting for it.

use vstd::prelude::*;
use crate::text::{decimal, extend_str, from_chars, push_decimal, texts};

verus! {

/// The port that the server listens on.
pub const RC_PORT: u16 = 5572;

/// The address that the server is reached at.
pub const RC_URL: &'static str = "http://localhost:5572";

/// How often the server is probed before the wait is given up.
pub const MAX_PROBES: u32 = 20;

/// Milliseconds between two probes.
pub const PROBE_INTERVAL_MS: u64 = 500;

/// What the wait for the server to come up ends with when it never does.
pub const STARTUP_TIMED_OUT: &'static str = "Timed out waiting for rclone rc server";

/// What the wait for the server to go away ends with when it never does.
pub const SHUTDOWN_TIMED_OUT: &'static str = "Timed out waiting for rclone rc server to stop";

/// The arguments that start the server: remote control without
/// authentication on the local port, logging to `log_file` at level `INFO`.
pub open spec fn server_args(log_file: Seq<char>) -> Seq<Seq<char>> {
    seq![
        "rcd"@,
        "--rc-no-auth"@,
        "--rc-addr=localhost:"@ + decimal(RC_PORT as int),
        "--log-file"@,
        log_file,
        "--log-level"@,
        "INFO"@,
    ]
}

/// The arguments that start the server with its log in `log_file`.
pub fn rcd_args(log_file: &str) -> (args: Vec<String>)
    ensures
        texts(args@) == server_args(log_file@),
{
    let mut addr: Vec<char> = Vec::new();
    extend_str(&mut addr, "--rc-addr=localhost:");
    push_decimal(&mut addr, RC_PORT as i64);
    let mut args: Vec<String> = Vec::new();
    args.push("rcd".to_owned());
    args.push("--rc-no-auth".to_owned());
    args.push(from_chars(&addr));
    args.push("--log-file".to_owned());
    args.push(log_file.to_owned());
    args.push("--log-level".to_owned());
    args.push("INFO".to_owned());
    assert(texts(args@) =~= server_args(log_file@));
    args
}

/// What a wait is for.
#[derive(Debug, Clone, Copy, PartialEq, Eq, Structural)]
pub enum WaitGoal {
    /// The server answers.
    Running,
    /// The server no longer answers.
    Stopped,
}

/// What to do after a probe.
#[derive(Debug, Clone, Copy, PartialEq, Eq, Structural)]
pub enum WaitStep {
    /// The goal is reached.
    Done,
    /// Not yet: wait `PROBE_INTERVAL_MS` and probe again.
    Retry,
    /// Not yet, and the probes are used up: the server is unavailable.
    TimedOut,
}

/// Whether a probe that found the server running or not meets the goal.
pub open spec fn meets(goal: WaitGoal, running: bool) -> bool {
    running == (goal == WaitGoal::Running)
}

/// One step of a wait that has missed its goal `probes` times: the count of
/// misses after a probe that found the server running or not, and what to
/// do. A miss is counted, and the `MAX_PROBES`-th miss ends the wait.
pub open spec fn wait_step(goal: WaitGoal, probes: nat, running: bool) -> (nat, WaitStep) {
    if meets(goal, running) {
        (probes, WaitStep::Done)
    } else {
        let missed = if probes < MAX_PROBES {
            probes + 1
        } else {
            probes
        };
        (
            missed as nat,
            if missed < MAX_PROBES {
                WaitStep::Retry
            } else {
                WaitStep::TimedOut
            },
        )
    }
}

/// The count of misses of a new wait after the probes `answers`.
pub open spec fn misses_after(goal: WaitGoal, answers: Seq<bool>) -> nat
    decreases answers.len(),
{
    if answers.len() == 0 {
        0
    } else {
        wait_step(goal, misses_after(goal, answers.drop_last()), answers.last()).0
    }
}

/// While every probe misses the goal, each is counted until the budget is
/// used up.
proof fn lemma_misses_count(goal: WaitGoal, answers: Seq<bool>)
    requires
        forall|i: int| 0 <= i < answers.len() ==> !meets(goal, #[trigger] answers[i]),
    ensures
        misses_after(goal, answers) == if answers.len() <= MAX_PROBES {
            answers.len()
        } else {
            MAX_PROBES as nat
        },
    decreases answers.len(),
{
    if answers.len() > 0 {
        let shorter = answers.drop_last();
        assert forall|i: int| 0 <= i < shorter.len() implies !meets(goal, #[trigger] shorter[i]) by {
            assert(shorter[i] == answers[i]);
        }
        lemma_misses_count(goal, shorter);
    }
}

/// No wait is endless: a wait whose probes all miss the goal is told to try
/// again after each of the first `MAX_PROBES - 1` probes, and is given up at
/// the `MAX_PROBES`-th.
pub proof fn lemma_wait_is_bounded(goal: WaitGoal, answers: Seq<bool>, at: int)
    requires
        forall|i: int| 0 <= i < answers.len() ==> !meets(goal, #[trigger] answers[i]),
        0 <= at < answers.len(),
        at < MAX_PROBES,
    ensures
        wait_step(goal, misses_after(goal, answers.take(at)), answers[at]).1 == if at
            == MAX_PROBES - 1 {
            WaitStep::TimedOut
        } else {
            WaitStep::Retry
        },
{
    let earlier = answers.take(at);
    assert forall|i: int| 0 <= i < earlier.len() implies !meets(goal, #[trigger] earlier[i]) by {
        assert(earlier[i] == answers[i]);
    }
    lemma_misses_count(goal, earlier);
}

/// A bounded wait for the server to come up or to go away.
pub struct ServerWait {
    goal: WaitGoal,
    probes: u32,
}

impl ServerWait {
    /// What the wait is for.
    pub closed spec fn goal(self) -> WaitGoal {
        self.goal
    }

    /// How many probes have missed the goal so far.
    pub closed spec fn probes(self) -> nat {
        self.probes as nat
    }

    #[verifier::type_invariant]
    spec fn within_budget(self) -> bool {
        self.probes <= MAX_PROBES
    }

    /// A wait that has not probed yet.
    pub fn new(goal: WaitGoal) -> (wait: Self)
        ensures
            wait.goal() == goal,
            wait.probes() == 0,
    {
        ServerWait { goal, probes: 0 }
    }

    /// Takes in the answer of one probe, whether the server is running, and
    /// says what to do: one `wait_step`. The count of misses never exceeds
    /// `MAX_PROBES`.
    pub fn on_probe(&mut self, running: bool) -> (step: WaitStep)
        ensures
            final(self).goal() == old(self).goal(),
            (final(self).probes(), step) == wait_step(old(self).goal(), old(self).probes(), running),
            final(self).probes() <= MAX_PROBES,
    {
        proof {
            use_type_invariant(&*self);
        }
        let wanted = match self.goal {
            WaitGoal::Running => running,
            WaitGoal::Stopped => !running,
        };
        if wanted {
            return WaitStep::Done;
        }
        if self.probes < MAX_PROBES {
            self.probes = self.probes + 1;
        }
        if self.probes < MAX_PROBES {
            WaitStep::Retry
        } else {
            WaitStep::TimedOut
        }
    }

    /// The message of a wait that was given up.
    pub fn timeout_message(&self) -> (m: String)
        ensures
            m@ == match self.goal() {
                WaitGoal::Running => STARTUP_TIMED_OUT@,
                WaitGoal::Stopped => SHUTDOWN_TIMED_OUT@,
            },
    {
        match self.goal {
            WaitGoal::Running => STARTUP_TIMED_OUT.to_owned(),
            WaitGoal::Stopped => SHUTDOWN_TIMED_OUT.to_owned(),
        }
    }
}

} // verus!
