//! Starting hyprlock, and surviving a bar restart while it runs.
//!
//! The lock screen runs in a **scope** (only a scope leaves the program as
//! this process's child, so its exit says the screen was unlocked), as a
//! **singleton** (a keybind pressed twice does not stack two lockers), and
//! **protected** (oomd sheds the rest of the session first). `--no-scope` opts
//! out of all of it, and the guards below stop it from quietly producing a
//! lock screen a unit restart can kill.
//!
//! Each decision is a function of what the caller found out; the caller runs
//! the processes and asks the compositor.
use vstd::prelude::*;
use crate::spawn::{Error, Mode, OnCollision, Program, DEFAULT_SLICE, sanitize_tag_spec};
use crate::text::{concat, owned, push_decimal, push_signed, decimal, signed_decimal, strings_view};

verus! {

/// Unit tag. Fixed rather than generated, so a second invocation is refused
/// instead of stacking two lock screens.
pub const TAG: &'static str = "lock";

/// What happened to hyprlock.
#[derive(Debug, Clone, PartialEq, Eq)]
pub enum Outcome {
    /// The screen was locked and has since been unlocked.
    Unlocked,
    /// Started, and we were asked not to wait.
    Detached,
    /// hyprlock ran but exited non-zero; the code, unless a signal ended it.
    Failed(Option<i32>),
    /// A lock is already up.
    AlreadyLocked,
    /// Could not start it at all.
    NotStarted(String),
}

/// How to launch it.
#[derive(Debug, Clone, Copy, PartialEq, Eq)]
pub struct Options {
    /// Wrap in a transient systemd scope. Off only for debugging.
    pub scope: bool,
    /// Return as soon as it starts rather than waiting for the unlock.
    pub detach: bool,
    /// Take over from a lock screen that is already up rather than refusing
    /// to start, but never from the one the compositor says is live.
    pub replace: bool,
    pub grace: Option<u32>,
}

/// Why `--no-scope` cannot be honoured, if it cannot.
pub open spec fn refuse_unscoped_spec(options: Options, inside_a_unit: bool) -> Option<Seq<char>> {
    if options.scope {
        None
    } else if options.replace {
        Some("--replace has no lock screen to replace without a scope"@)
    } else if !inside_a_unit {
        None
    } else if options.detach {
        Some("--detach --no-scope inside a systemd unit would leave the lock killable"@)
    } else {
        Some("--no-scope inside a systemd unit would let a unit restart kill the lock screen"@)
    }
}

pub open spec fn opt_seq(o: Option<String>) -> Option<Seq<char>> {
    match o {
        Some(s) => Some(s@),
        None => None,
    }
}

/// Why `--no-scope` cannot be honoured here, if it cannot: without a scope
/// there is no unit to take over, and inside a systemd unit an unscoped
/// hyprlock would die with that unit.
pub fn refuse_unscoped(options: Options, inside_a_unit: bool) -> (why: Option<String>)
    ensures
        opt_seq(why) == refuse_unscoped_spec(options, inside_a_unit),
{
    if options.scope {
        return None;
    }
    if options.replace {
        return Some(owned("--replace has no lock screen to replace without a scope"));
    }
    if !inside_a_unit {
        return None;
    }
    Some(
        if options.detach {
            owned("--detach --no-scope inside a systemd unit would leave the lock killable")
        } else {
            owned("--no-scope inside a systemd unit would let a unit restart kill the lock screen")
        },
    )
}

/// The isolated hyprlock to run, and what it does about one already running.
pub fn program(hyprlock: &str, replace: bool) -> (p: Program)
    ensures
        strings_view(p.argv@) == seq![hyprlock@],
        p.tag@ == sanitize_tag_spec(TAG@),
        p.mode == Mode::Scope,
        p.singleton == Some(
            if replace {
                OnCollision::Replace
            } else {
                OnCollision::Refuse
            },
        ),
        p.protected,
        p.slice@ == DEFAULT_SLICE@,
{
    Program::new(hyprlock).tag(TAG).mode(Mode::Scope).singleton(
        if replace {
            OnCollision::Replace
        } else {
            OnCollision::Refuse
        },
    ).protected()
}

/// A failed claim as an [`Outcome`]: a lock already up is
/// [`Outcome::AlreadyLocked`], anything else [`Outcome::NotStarted`] with
/// the error's own words.
pub fn claim_failed(error: Error) -> (o: Outcome)
    ensures
        match error {
            Error::AlreadyRunning { .. } => o == Outcome::AlreadyLocked,
            _ => match o {
                Outcome::NotStarted(why) => why@ == error.message_spec(),
                _ => false,
            },
        },
{
    match error {
        Error::AlreadyRunning { .. } => Outcome::AlreadyLocked,
        other => Outcome::NotStarted(other.message()),
    }
}

/// Whether a failed takeover may have left the session locked behind no
/// client. Only a takeover stopped anything.
pub open spec fn rescue_needed_spec(outcome: Outcome, replace: bool) -> bool {
    replace && (outcome is Failed || outcome is NotStarted)
}

pub fn rescue_needed(outcome: &Outcome, replace: bool) -> (b: bool)
    ensures
        b == rescue_needed_spec(*outcome, replace),
{
    replace && match outcome {
        Outcome::Failed(_) | Outcome::NotStarted(_) => true,
        _ => false,
    }
}

/// The arguments hyprlock gets after its name.
pub open spec fn hyprlock_args_spec(config: Seq<char>, grace: Option<u32>) -> Seq<Seq<char>> {
    seq!["-c"@, config] + match grace {
        Some(g) => seq!["--grace"@, decimal(g as nat)],
        None => seq![],
    }
}

/// The arguments hyprlock is run with: the generated config, and the grace
/// period when one was asked for.
pub fn hyprlock_args(config: &str, grace: Option<u32>) -> (args: Vec<String>)
    ensures
        strings_view(args@) == hyprlock_args_spec(config@, grace),
{
    let mut args: Vec<String> = Vec::new();
    args.push(owned("-c"));
    args.push(owned(config));
    if let Some(g) = grace {
        args.push(owned("--grace"));
        let mut n = String::new();
        push_decimal(&mut n, g as u64);
        args.push(n);
    }
    assert(strings_view(args@) =~= hyprlock_args_spec(config@, grace));
    args
}

/// What running the hyprlock command gave.
#[derive(Debug, Clone, PartialEq, Eq)]
pub enum Ran {
    /// Started, and not waited on.
    Started,
    /// Waited on until it exited.
    Exited { success: bool, code: Option<i32> },
    /// The process could not be started; the system's reason.
    CouldNotStart(String),
}

/// The outcome of a run of `hyprlock`.
pub fn outcome_of(hyprlock: &str, ran: Ran) -> (o: Outcome)
    ensures
        match ran {
            Ran::Started => o == Outcome::Detached,
            Ran::Exited { success, code } => if success {
                o == Outcome::Unlocked
            } else {
                o == Outcome::Failed(code)
            },
            Ran::CouldNotStart(reason) => match o {
                Outcome::NotStarted(why) => why@ == "starting "@ + hyprlock@ + ": "@ + reason@,
                _ => false,
            },
        },
{
    match ran {
        Ran::Started => Outcome::Detached,
        Ran::Exited { success, code } => if success {
            Outcome::Unlocked
        } else {
            Outcome::Failed(code)
        },
        Ran::CouldNotStart(reason) => {
            let mut why = concat("starting ", hyprlock);
            crate::text::push_str(&mut why, ": ");
            crate::text::push_str(&mut why, reason.as_str());
            Outcome::NotStarted(why)
        },
    }
}

/// The exit code an outcome becomes: what a keybind or an idle daemon reacts
/// to.
pub open spec fn exit_code_spec(outcome: Outcome) -> i32 {
    match outcome {
        Outcome::Unlocked | Outcome::Detached => 0,
        Outcome::AlreadyLocked => 3,
        _ => 1,
    }
}

/// The message an outcome is reported with, if any.
pub open spec fn report_message_spec(outcome: Outcome) -> Option<Seq<char>> {
    match outcome {
        Outcome::Unlocked | Outcome::Detached => None,
        Outcome::AlreadyLocked => Some("a lock screen is already running"@),
        Outcome::NotStarted(why) => Some(why@),
        Outcome::Failed(Some(code)) => if code == 134 {
            Some("hyprlock aborted; is there a Wayland compositor to connect to?"@)
        } else {
            Some("hyprlock exited "@ + signed_decimal(code as int))
        },
        Outcome::Failed(None) => Some("hyprlock was killed by a signal"@),
    }
}

/// An outcome as a process exit code and a message for the user. 134 is
/// SIGABRT, how hyprlock exits when it cannot reach a compositor, and is
/// named rather than shown bare.
pub fn report(outcome: &Outcome) -> (r: (i32, Option<String>))
    ensures
        r.0 == exit_code_spec(*outcome),
        opt_seq(r.1) == report_message_spec(*outcome),
{
    match outcome {
        Outcome::Unlocked | Outcome::Detached => (0, None),
        Outcome::AlreadyLocked => (3, Some(owned("a lock screen is already running"))),
        Outcome::NotStarted(why) => (1, Some(why.clone())),
        Outcome::Failed(Some(code)) => if *code == 134 {
            (1, Some(owned("hyprlock aborted; is there a Wayland compositor to connect to?")))
        } else {
            let mut m = owned("hyprlock exited ");
            push_signed(&mut m, *code as i64);
            (1, Some(m))
        },
        Outcome::Failed(None) => (1, Some(owned("hyprlock was killed by a signal"))),
    }
}

/// What the caller found out since the last step.
#[derive(Debug, Clone, PartialEq, Eq)]
pub enum LockEvent {
    /// The start, and whether this process runs inside a systemd unit.
    Start { inside_a_unit: bool },
    /// The compositor's answer: is the session locked right now?
    SessionLocked(bool),
    /// The scoped hyprlock ran (or its claim failed) with this outcome.
    ScopedRan(Outcome),
    /// The unscoped hyprlock ran with this outcome.
    UnscopedRan(Outcome),
}

/// What the caller does next.
#[derive(Debug, Clone, PartialEq, Eq)]
pub enum LockStep {
    /// Stop here, with this outcome.
    Finish(Outcome),
    /// Run hyprlock directly, with no scope.
    RunUnscoped,
    /// Ask the compositor whether the session is already locked.
    AskSessionLocked,
    /// Claim the singleton unit and run hyprlock in its scope.
    RunScoped,
}

/// One step of locking the session, given the options and what just
/// happened.
///
/// A refused `--no-scope` ends before anything starts. A takeover first asks
/// the compositor, and never replaces the live lock. A takeover that failed
/// (the old lock stopped and the new one never came up, or the old one would
/// not stop) may leave the session locked with no client, so it is retried
/// outside the scope: a killable lock screen beats none.
pub fn lock_step(options: Options, event: LockEvent) -> (step: LockStep)
    ensures
        match event {
            LockEvent::Start { inside_a_unit } => match refuse_unscoped_spec(
                options,
                inside_a_unit,
            ) {
                Some(why) => match step {
                    LockStep::Finish(Outcome::NotStarted(m)) => m@ == why,
                    _ => false,
                },
                None => step == if !options.scope {
                    LockStep::RunUnscoped
                } else if options.replace {
                    LockStep::AskSessionLocked
                } else {
                    LockStep::RunScoped
                },
            },
            LockEvent::SessionLocked(locked) => step == if locked {
                LockStep::Finish(Outcome::AlreadyLocked)
            } else {
                LockStep::RunScoped
            },
            LockEvent::ScopedRan(outcome) => step == if rescue_needed_spec(
                outcome,
                options.replace,
            ) {
                LockStep::RunUnscoped
            } else {
                LockStep::Finish(outcome)
            },
            LockEvent::UnscopedRan(outcome) => step == LockStep::Finish(outcome),
        },
{
    match event {
        LockEvent::Start { inside_a_unit } => match refuse_unscoped(options, inside_a_unit) {
            Some(why) => LockStep::Finish(Outcome::NotStarted(why)),
            None => if !options.scope {
                LockStep::RunUnscoped
            } else if options.replace {
                LockStep::AskSessionLocked
            } else {
                LockStep::RunScoped
            },
        },
        LockEvent::SessionLocked(locked) => if locked {
            LockStep::Finish(Outcome::AlreadyLocked)
        } else {
            LockStep::RunScoped
        },
        LockEvent::ScopedRan(outcome) => if rescue_needed(&outcome, options.replace) {
            LockStep::RunUnscoped
        } else {
            LockStep::Finish(outcome)
        },
        LockEvent::UnscopedRan(outcome) => LockStep::Finish(outcome),
    }
}

} // verus!
