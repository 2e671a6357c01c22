//! One run of the lock command, as decisions between the outside steps:
//! reading the base config, composing the generated one, putting it in the
//! runtime directory and locking. The caller performs each step and reports
//! what came of it.
use vstd::prelude::*;
use crate::lock::cli::Args;
use crate::text::{decimal, owned, push_decimal, push_str};

verus! {

/// What the caller reports.
#[derive(Debug, Clone, PartialEq, Eq)]
pub enum RunEvent {
    /// The base hyprlock config at `path` could not be read.
    BaseUnreadable { path: String, reason: String },
    /// The generated config, with the number of wallpaper paths it had to
    /// drop and whether the base lacks a background block without a monitor.
    Composed { config: String, rejected: usize, missing_fallback: bool },
    /// Putting the generated config in the runtime directory: `None` when
    /// there is no runtime directory, else whether writing it worked.
    Placed(Option<Result<(), String>>),
}

/// What the caller does next.
#[derive(Debug, Clone, PartialEq, Eq)]
pub enum RunStep {
    /// Print `out` to standard output and `err` to standard error, as they
    /// are, and exit with `code`.
    Exit { code: i32, out: String, err: String },
    /// Write the generated config to the runtime directory.
    Place,
    /// Lock with the generated config, or with the base config unchanged;
    /// `warning` says why the generated one is not used.
    Lock { generated: bool, warning: Option<String> },
}

/// The message for an unreadable base config.
pub open spec fn unreadable_message(path: Seq<char>, reason: Seq<char>) -> Seq<char> {
    "obayebar-lock: cannot read the hyprlock config at "@ + path + " ("@ + reason
        + "); point --config or [lock].config at one\n"@
}

/// What `--check` says of a config with `rejected` unusable paths.
pub open spec fn problems_message(rejected: nat, missing_fallback: bool) -> Seq<char> {
    "obayebar-lock: "@ + decimal(rejected) + " unusable path(s)"@ + (if missing_fallback {
        ", and no monitor-less background in the base config"@
    } else {
        ""@
    }) + "\n"@
}

/// The warning for locking with the base config because the generated one
/// could not be put in place.
pub open spec fn fallback_warning(why: Seq<char>) -> Seq<char> {
    why + ", locking with the base config unchanged"@
}

/// The step that follows `event` in a run with the command line `args`.
///
/// An unreadable base config ends the run: with 2 when it was named on the
/// command line (a usage error), 1 when it was the configured default.
/// `--print` prints the generated config and exits 0; `--check` exits 1 on
/// any dropped path or a missing monitor-less background, else 0; otherwise
/// the generated config is put in place and used, and where there is no
/// runtime directory or writing fails, the base config is used unchanged: a
/// plainer lock screen beats an unlocked machine.
pub fn run_step(args: &Args, event: RunEvent) -> (step: RunStep)
    ensures
        match event {
            RunEvent::BaseUnreadable { path, reason } => step matches RunStep::Exit { code, out, err } && code
                == (if args.config is Some { 2i32 } else { 1i32 }) && out@.len() == 0 && err@
                == unreadable_message(path@, reason@),
            RunEvent::Composed { config, rejected, missing_fallback } => if args.print {
                step matches RunStep::Exit { code, out, err } && code == 0 && out@ == config@ && err@.len()
                    == 0
            } else if args.check {
                if rejected > 0 || missing_fallback {
                    step matches RunStep::Exit { code, out, err } && code == 1 && out@.len() == 0 && err@
                        == problems_message(rejected as nat, missing_fallback)
                } else {
                    step matches RunStep::Exit { code, out, err } && code == 0 && out@
                        == "obayebar-lock: config is usable\n"@ && err@.len() == 0
                }
            } else {
                step is Place
            },
            RunEvent::Placed(placed) => match placed {
                None => step matches RunStep::Lock { generated: false, warning: Some(w) } && w@
                    == fallback_warning("XDG_RUNTIME_DIR is unset"@),
                Some(Err(why)) => step matches RunStep::Lock { generated: false, warning: Some(w) } && w@
                    == fallback_warning(why@),
                Some(Ok(())) => step == (RunStep::Lock { generated: true, warning: None }),
            },
        },
{
    match event {
        RunEvent::BaseUnreadable { path, reason } => {
            let mut err = owned("obayebar-lock: cannot read the hyprlock config at ");
            push_str(&mut err, path.as_str());
            push_str(&mut err, " (");
            push_str(&mut err, reason.as_str());
            push_str(&mut err, "); point --config or [lock].config at one\n");
            proof {
                reveal_strlit("obayebar-lock: cannot read the hyprlock config at ");
                reveal_strlit(" (");
                reveal_strlit("); point --config or [lock].config at one\n");
                reveal_strlit("");
            }
            let code: i32 = if args.config.is_some() { 2 } else { 1 };
            RunStep::Exit { code, out: String::new(), err }
        },
        RunEvent::Composed { config, rejected, missing_fallback } => {
            if args.print {
                RunStep::Exit { code: 0, out: config, err: String::new() }
            } else if args.check {
                if rejected > 0 || missing_fallback {
                    let mut err = owned("obayebar-lock: ");
                    push_decimal(&mut err, rejected as u64);
                    push_str(&mut err, " unusable path(s)");
                    if missing_fallback {
                        push_str(&mut err, ", and no monitor-less background in the base config");
                    }
                    push_str(&mut err, "\n");
                    proof {
                        reveal_strlit("obayebar-lock: ");
                        reveal_strlit(" unusable path(s)");
                        reveal_strlit(", and no monitor-less background in the base config");
                        reveal_strlit("\n");
                        reveal_strlit("");
                    }
                    RunStep::Exit { code: 1, out: String::new(), err }
                } else {
                    RunStep::Exit { code: 0, out: owned("obayebar-lock: config is usable\n"), err: String::new() }
                }
            } else {
                RunStep::Place
            }
        },
        RunEvent::Placed(placed) => match placed {
            None => {
                let mut w = owned("XDG_RUNTIME_DIR is unset");
                push_str(&mut w, ", locking with the base config unchanged");
                RunStep::Lock { generated: false, warning: Some(w) }
            },
            Some(Err(why)) => {
                let mut w = why;
                push_str(&mut w, ", locking with the base config unchanged");
                RunStep::Lock { generated: false, warning: Some(w) }
            },
            Some(Ok(())) => RunStep::Lock { generated: true, warning: None },
        },
    }
}

} // verus!
