//! The ex-command processor: parse a typed command line into a command and
//! decide what it does to the document. A command never performs I/O itself;
//! it reports an outcome (`Quit`, `Write`, ...) that the surrounding program
//! carries out, and it updates the document's modified flag.

use vstd::prelude::*;

use crate::buffer::{Buffer, BufferModel};

verus! {

pub trait Run {
    fn run(&self, buffer: &mut Buffer) -> Result<RunOutcome, RunError>;
}

/// Failure to parse a typed command line.
#[derive(Clone, Copy, PartialEq, Eq, Structural, Debug)]
pub enum CommandError {
    UnknownCommand,
}

/// Failure to run a parsed command: saving without a path, or quitting with
/// unsaved changes and no force flag.
#[derive(Clone, Copy, PartialEq, Eq, Structural, Debug)]
pub enum RunError {
    UnknownPath,
    QuitOnModified,
}

/// What the surrounding program must do after a command ran: nothing, write
/// the buffer to its path, terminate, or write and then terminate.
#[derive(Clone, Copy, PartialEq, Eq, Structural, Debug)]
pub enum RunOutcome {
    Continue,
    Write,
    Quit,
    WriteQuit,
}

pub struct QuitCommand {
    discard: bool,
}

impl QuitCommand {
    /// Whether this quit bypasses the unsaved-changes check (`q!`).
    pub closed spec fn spec_discard(&self) -> bool {
        self.discard
    }
}

pub struct SaveCommand;

pub struct SaveQuitCommand;

pub enum Command {
    Quit(QuitCommand),
    Save(SaveCommand),
    SaveQuit(SaveQuitCommand),
}

/// What running a command answers, given the buffer it runs against. A quit
/// succeeds exactly when the document is unmodified or the force flag is set;
/// a save demands a path and asks for a write exactly when the document is
/// modified; save-then-quit aborts before the quit when the save fails.
pub open spec fn spec_run_result(c: &Command, m: BufferModel) -> Result<RunOutcome, RunError> {
    match c {
        Command::Quit(q) => if q.spec_discard() || !m.modified {
            Ok(RunOutcome::Quit)
        } else {
            Err(RunError::QuitOnModified)
        },
        Command::Save(_) => if m.path is None {
            Err(RunError::UnknownPath)
        } else if m.modified {
            Ok(RunOutcome::Write)
        } else {
            Ok(RunOutcome::Continue)
        },
        Command::SaveQuit(_) => if m.path is None {
            Err(RunError::UnknownPath)
        } else if m.modified {
            Ok(RunOutcome::WriteQuit)
        } else {
            Ok(RunOutcome::Quit)
        },
    }
}

/// How running a command changes the buffer: a successful save clears the
/// modified flag, everything else leaves the buffer untouched.
pub open spec fn spec_run_buffer(c: &Command, m: BufferModel) -> BufferModel {
    match c {
        Command::Quit(_) => m,
        Command::Save(_) | Command::SaveQuit(_) => if m.path is Some && m.modified {
            BufferModel { modified: false, ..m }
        } else {
            m
        },
    }
}

impl Command {
    /// Parse a finalized command line: `q` quit, `q!` force quit, `w` save,
    /// `wq` save then quit; anything else is unknown.
    pub fn parse(chars: &Vec<char>) -> (r: Result<Command, CommandError>)
        ensures
            ({
                let s = chars@;
                match r {
                    Ok(Command::Quit(q)) => (s == seq!['q'] && !q.spec_discard()) || (s == seq![
                        'q',
                        '!',
                    ] && q.spec_discard()),
                    Ok(Command::Save(_)) => s == seq!['w'],
                    Ok(Command::SaveQuit(_)) => s == seq!['w', 'q'],
                    Err(e) => e == CommandError::UnknownCommand && s != seq!['q'] && s != seq![
                        'q',
                        '!',
                    ] && s != seq!['w'] && s != seq!['w', 'q'],
                }
            }),
    {
        if chars.len() == 1 && chars[0] == 'q' {
            proof {
                assert(chars@ =~= seq!['q']);
            }
            Ok(Command::Quit(QuitCommand { discard: false }))
        } else if chars.len() == 2 && chars[0] == 'q' && chars[1] == '!' {
            proof {
                assert(chars@ =~= seq!['q', '!']);
            }
            Ok(Command::Quit(QuitCommand { discard: true }))
        } else if chars.len() == 1 && chars[0] == 'w' {
            proof {
                assert(chars@ =~= seq!['w']);
            }
            Ok(Command::Save(SaveCommand))
        } else if chars.len() == 2 && chars[0] == 'w' && chars[1] == 'q' {
            proof {
                assert(chars@ =~= seq!['w', 'q']);
            }
            Ok(Command::SaveQuit(SaveQuitCommand))
        } else {
            proof {
                assert(chars@ != seq!['q'] && chars@ != seq!['q', '!'] && chars@ != seq!['w']
                    && chars@ != seq!['w', 'q']) by {
                    if chars@ == seq!['q'] {
                        assert(chars@.len() == 1 && chars@[0] == 'q');
                    }
                    if chars@ == seq!['q', '!'] {
                        assert(chars@.len() == 2 && chars@[0] == 'q' && chars@[1] == '!');
                    }
                    if chars@ == seq!['w'] {
                        assert(chars@.len() == 1 && chars@[0] == 'w');
                    }
                    if chars@ == seq!['w', 'q'] {
                        assert(chars@.len() == 2 && chars@[0] == 'w' && chars@[1] == 'q');
                    }
                }
            }
            Err(CommandError::UnknownCommand)
        }
    }

    /// Run the command against the buffer, deciding the outcome the
    /// surrounding program must carry out.
    pub fn run(&self, buffer: &mut Buffer) -> (r: Result<RunOutcome, RunError>)
        ensures
            r == spec_run_result(self, old(buffer)@),
            final(buffer)@ == spec_run_buffer(self, old(buffer)@),
    {
        match self {
            Command::Quit(quit) => quit.run(buffer),
            Command::Save(save) => save.run(buffer),
            Command::SaveQuit(save_quit) => save_quit.run(buffer),
        }
    }
}

impl QuitCommand {
    /// Quit is allowed when the force flag is set or nothing is unsaved;
    /// otherwise it fails and the unsaved changes block it.
    pub fn run(&self, buffer: &mut Buffer) -> (r: Result<RunOutcome, RunError>)
        ensures
            final(buffer)@ == old(buffer)@,
            self.spec_discard() || !old(buffer)@.modified ==> r == Ok::<RunOutcome, RunError>(
                RunOutcome::Quit,
            ),
            !self.spec_discard() && old(buffer)@.modified ==> r == Err::<RunOutcome, RunError>(
                RunError::QuitOnModified,
            ),
    {
        if self.discard || !buffer.is_modified() {
            Ok(RunOutcome::Quit)
        } else {
            Err(RunError::QuitOnModified)
        }
    }
}

impl SaveCommand {
    /// Save demands a path; when the document is modified it clears the flag
    /// and asks the surrounding program to write the bytes.
    pub fn run(&self, buffer: &mut Buffer) -> (r: Result<RunOutcome, RunError>)
        ensures
            old(buffer)@.path is None ==> r == Err::<RunOutcome, RunError>(RunError::UnknownPath)
                && final(buffer)@ == old(buffer)@,
            old(buffer)@.path is Some && old(buffer)@.modified ==> r == Ok::<RunOutcome, RunError>(
                RunOutcome::Write,
            ) && final(buffer)@ == (BufferModel { modified: false, ..old(buffer)@ }),
            old(buffer)@.path is Some && !old(buffer)@.modified ==> r == Ok::<RunOutcome, RunError>(
                RunOutcome::Continue,
            ) && final(buffer)@ == old(buffer)@,
    {
        if !buffer.has_path() {
            return Err(RunError::UnknownPath);
        }
        if buffer.is_modified() {
            buffer.set_modified(false);
            Ok(RunOutcome::Write)
        } else {
            Ok(RunOutcome::Continue)
        }
    }
}

impl SaveQuitCommand {
    /// Save then quit: a failed save aborts before the quit; after a
    /// successful save nothing is unsaved, so the quit always goes through.
    pub fn run(&self, buffer: &mut Buffer) -> (r: Result<RunOutcome, RunError>)
        ensures
            old(buffer)@.path is None ==> r == Err::<RunOutcome, RunError>(RunError::UnknownPath)
                && final(buffer)@ == old(buffer)@,
            old(buffer)@.path is Some && old(buffer)@.modified ==> r == Ok::<RunOutcome, RunError>(
                RunOutcome::WriteQuit,
            ) && final(buffer)@ == (BufferModel { modified: false, ..old(buffer)@ }),
            old(buffer)@.path is Some && !old(buffer)@.modified ==> r == Ok::<RunOutcome, RunError>(
                RunOutcome::Quit,
            ) && final(buffer)@ == old(buffer)@,
    {
        match (SaveCommand).run(buffer) {
            Err(e) => Err(e),
            Ok(RunOutcome::Write) => Ok(RunOutcome::WriteQuit),
            Ok(_) => (QuitCommand { discard: false }).run(buffer),
        }
    }
}

impl Run for QuitCommand {
    fn run(&self, buffer: &mut Buffer) -> Result<RunOutcome, RunError> {
        QuitCommand::run(self, buffer)
    }
}

impl Run for SaveCommand {
    fn run(&self, buffer: &mut Buffer) -> Result<RunOutcome, RunError> {
        SaveCommand::run(self, buffer)
    }
}

impl Run for SaveQuitCommand {
    fn run(&self, buffer: &mut Buffer) -> Result<RunOutcome, RunError> {
        SaveQuitCommand::run(self, buffer)
    }
}

} // verus!
