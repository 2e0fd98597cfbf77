//! The bootstrap sequence of a store as a state machine: open, check
//! integrity, configure, parse the schema script, then apply each pending
//! version step in a transaction of its own.
//!
//! The machine decides; its driver performs each `Action` against the
//! database and reports the outcome as the next `Event`.
use vstd::prelude::*;

use crate::script::{canonical, normalize_statement, parse_script, script_steps, Step};

verus! {

/// How a store is to be opened and brought up to date.
#[derive(Clone)]
pub struct SqliteSetup {
    pub schema: Option<String>,
    pub cache_kb: Option<u32>,
    pub create: bool,
    pub check_integrity: bool,
}

impl SqliteSetup {
    /// No schema, the default cache, no creation, integrity checked.
    pub fn new() -> (r: SqliteSetup)
        ensures
            r.schema is None,
            r.cache_kb is None,
            !r.create,
            r.check_integrity,
    {
        SqliteSetup { schema: None, cache_kb: None, create: false, check_integrity: true }
    }

    pub fn create(&mut self, create: bool) -> (r: &mut Self)
        ensures
            *r == (SqliteSetup { create, ..*old(self) }),
            *final(r) == *final(self),
    {
        self.create = create;
        self
    }

    pub fn check_integrity(&mut self, check_integrity: bool) -> (r: &mut Self)
        ensures
            *r == (SqliteSetup { check_integrity, ..*old(self) }),
            *final(r) == *final(self),
    {
        self.check_integrity = check_integrity;
        self
    }

    pub fn schema(&mut self, schema: &str) -> (r: &mut Self)
        ensures
            r.schema matches Some(t) && t@ == schema@,
            r.cache_kb == old(self).cache_kb,
            r.create == old(self).create,
            r.check_integrity == old(self).check_integrity,
            *final(r) == *final(self),
    {
        self.schema = Some(schema.to_string());
        self
    }

    pub fn cache_kb(&mut self, kb: u32) -> (r: &mut Self)
        ensures
            *r == (SqliteSetup { cache_kb: Some(kb), ..*old(self) }),
            *final(r) == *final(self),
    {
        self.cache_kb = Some(kb);
        self
    }
}

/// Where the bootstrap sequence stands: each stage but the first and the two
/// last waits for the outcome of one action.
#[derive(PartialEq, Eq, Structural, Clone, Copy, Debug)]
pub enum Stage {
    Start,
    Opening,
    CheckingIntegrity,
    EnablingForeignKeys,
    SettingJournal,
    SettingCache,
    ReadingVersion,
    Beginning,
    Rereading,
    Executing,
    Stamping,
    Committing,
    Finished,
    Failed,
}

/// The outcome of the last action, as the driver reports it.
pub enum Event {
    /// The first event, before any action.
    Start,
    /// The action succeeded and gave no value.
    Succeeded,
    /// The action succeeded and gave a text (an integrity report, a journal mode).
    Text { text: String },
    /// The action read the stored version.
    Version { version: u32 },
    /// The action failed; `detail` is what the database said.
    Failed { detail: String },
}

/// Why the bootstrap sequence stopped.
pub enum BootstrapError {
    /// The database file could not be opened.
    Open { detail: String },
    /// The integrity scan did not report `ok`, or could not run.
    Integrity { report: String },
    /// A setting was refused, or the journal mode did not change to WAL.
    Config { detail: String },
    /// A marker line of the schema script does not name a version.
    Parse { line: String },
    /// A version step could not be applied; its transaction is not committed.
    Migration { version: u32, statement: String, detail: String },
}

/// What the driver is to do next.
pub enum Action {
    /// Open the file read-write, creating it if `create`.
    Open { create: bool },
    /// Run the integrity scan and report its text.
    CheckIntegrity,
    /// Turn on foreign key enforcement.
    EnableForeignKeys,
    /// Switch the journal to write-ahead logging and report the mode now in force.
    SetJournalWal,
    /// Set the page cache to `kb` kibibytes.
    SetCacheSize { kb: u32 },
    /// Read the stored version.
    ReadVersion,
    /// Begin an immediate transaction.
    Begin,
    /// Execute a statement in the open transaction.
    Execute { statement: String },
    /// Write `version` as the stored version, in the open transaction.
    StampVersion { version: u32 },
    /// Commit the open transaction.
    Commit,
    /// The store is ready: hand the connection to the caller.
    Finish,
    /// Give up: drop any open transaction uncommitted, and report `error`.
    Abort { error: BootstrapError },
}

/// Whether `ev` is an outcome that the action of `stage` can have.
pub open spec fn fits(stage: Stage, ev: Event) -> bool {
    match stage {
        Stage::Start => ev is Start,
        Stage::CheckingIntegrity | Stage::SettingJournal => ev is Text || ev is Failed,
        Stage::ReadingVersion | Stage::Rereading => ev is Version || ev is Failed,
        Stage::Finished | Stage::Failed => false,
        _ => ev is Succeeded || ev is Failed,
    }
}

/// Whether a text reads `w` up to ASCII case; `w` is upper case.
pub open spec fn same_upper(t: Seq<char>, w: Seq<char>) -> bool {
    t.len() == w.len() && forall|k: int|
        0 <= k < t.len() ==> (#[trigger] t[k] == w[k] || ('A' <= w[k] && w[k] <= 'Z' && t[k]
            as u32 == w[k] as u32 + 32))
}

/// Compares a text with an upper case word, ignoring ASCII case.
pub fn is_upper_word(t: &str, w: &str) -> (r: bool)
    ensures
        r == same_upper(t@, w@),
{
    let tc = crate::text::chars_of(t);
    let wc = crate::text::chars_of(w);
    if tc.len() != wc.len() {
        return false;
    }
    let mut k: usize = 0;
    while k < tc.len()
        invariant
            k <= tc@.len() == wc@.len(),
            tc@ == t@,
            wc@ == w@,
            forall|j: int|
                0 <= j < k ==> (#[trigger] tc@[j] == wc@[j] || ('A' <= wc@[j] && wc@[j] <= 'Z'
                    && tc@[j] as u32 == wc@[j] as u32 + 32)),
        decreases tc@.len() - k,
    {
        let c = tc[k];
        let u = wc[k];
        if !(c == u || ('A' <= u && u <= 'Z' && c as u32 == u as u32 + 32)) {
            return false;
        }
        k += 1;
    }
    true
}

pub open spec fn ok_word() -> Seq<char> {
    seq!['O', 'K']
}

pub open spec fn wal_word() -> Seq<char> {
    seq!['W', 'A', 'L']
}

/// The bootstrap sequence of one store.
pub struct Bootstrap {
    pub setup: SqliteSetup,
    /// The steps of the schema script, once it has been parsed.
    pub steps: Vec<Step>,
    pub stage: Stage,
    /// The step at hand, in the stages of the per-step transaction.
    pub index: usize,
}

pub open spec fn in_step(stage: Stage) -> bool {
    stage == Stage::Beginning || stage == Stage::Rereading || stage == Stage::Executing
        || stage == Stage::Stamping || stage == Stage::Committing
}

impl Bootstrap {
    pub open spec fn wf(&self) -> bool {
        &&& self.index <= self.steps@.len()
        &&& in_step(self.stage) ==> self.index < self.steps@.len()
    }

    /// The steps, as versions and statements.
    pub open spec fn step_seq(&self) -> Seq<(u32, Seq<char>)> {
        self.steps@.map_values(|st: Step| st@)
    }

    /// The step at hand.
    pub open spec fn current(&self) -> (u32, Seq<char>) {
        self.step_seq()[self.index as int]
    }

    pub fn new(setup: SqliteSetup) -> (r: Bootstrap)
        ensures
            r.wf(),
            r.setup == setup,
            r.stage == Stage::Start,
            r.steps@.len() == 0,
    {
        Bootstrap { setup, steps: Vec::new(), stage: Stage::Start, index: 0 }
    }

    /// Whether `ev` is an outcome that the action now awaited can have.
    pub fn accepts(&self, ev: &Event) -> (r: bool)
        ensures
            r == fits(self.stage, *ev),
    {
        match self.stage {
            Stage::Start => matches!(ev, Event::Start),
            Stage::CheckingIntegrity | Stage::SettingJournal => matches!(ev, Event::Text { .. } | Event::Failed { .. }),
            Stage::ReadingVersion | Stage::Rereading => matches!(ev, Event::Version { .. } | Event::Failed { .. }),
            Stage::Finished | Stage::Failed => false,
            _ => matches!(ev, Event::Succeeded | Event::Failed { .. }),
        }
    }

    /// What follows the configuration: the store is ready where there is no
    /// schema; else the script's steps, or the marker line that stops it.
    pub open spec fn after_config(&self, new: Bootstrap, r: Action) -> bool {
        &&& new.setup == self.setup
        &&& match self.setup.schema {
            None => new.stage == Stage::Finished && r is Finish,
            Some(s) => match script_steps(s@) {
                Err(l) => new.stage == Stage::Failed && (r matches Action::Abort {
                    error: BootstrapError::Parse { line },
                } && line@ == l),
                Ok(q) => new.stage == Stage::ReadingVersion && r is ReadVersion && new.step_seq()
                    == q && new.index == 0,
            },
        }
    }

    /// What follows a step, or the first read of the version: the next step's
    /// transaction, or the end.
    pub open spec fn next_step(&self, new: Bootstrap, r: Action, i: int) -> bool {
        &&& new.setup == self.setup
        &&& new.steps == self.steps
        &&& new.index == i
        &&& if i < self.steps@.len() {
            new.stage == Stage::Beginning && r is Begin
        } else {
            new.stage == Stage::Finished && r is Finish
        }
    }

    /// The outcome of a failed action within the step at hand.
    pub open spec fn step_failed(&self, detail: String, r: Action) -> bool {
        r matches Action::Abort { error: BootstrapError::Migration { version, statement, detail: d } }
            && version == self.current().0 && statement@ == self.current().1 && d == detail
    }

    fn finish_config(&mut self) -> (r: Action)
        requires
            old(self).index == 0,
        ensures
            final(self).wf(),
            old(self).after_config(*final(self), r),
    {
        match &self.setup.schema {
            None => {
                self.stage = Stage::Finished;
                Action::Finish
            },
            Some(text) => {
                match parse_script(text.as_str()) {
                    Err(e) => {
                        self.stage = Stage::Failed;
                        Action::Abort { error: BootstrapError::Parse { line: e.line } }
                    },
                    Ok(steps) => {
                        self.steps = steps;
                        self.stage = Stage::ReadingVersion;
                        self.index = 0;
                        Action::ReadVersion
                    },
                }
            },
        }
    }

    fn begin_step(&mut self, i: usize) -> (r: Action)
        requires
            i <= old(self).steps@.len(),
        ensures
            final(self).wf(),
            old(self).next_step(*final(self), r, i as int),
    {
        self.index = i;
        if i < self.steps.len() {
            self.stage = Stage::Beginning;
            Action::Begin
        } else {
            self.stage = Stage::Finished;
            Action::Finish
        }
    }

    /// The abort that a failed action of the configuration brings.
    pub open spec fn config_failed(ev: Event, r: Action) -> bool {
        ev matches Event::Failed { detail } && r == (Action::Abort {
            error: BootstrapError::Config { detail },
        })
    }

    /// The transition out of the stages before the steps.
    pub open spec fn setup_transition(&self, ev: Event, new: Bootstrap, r: Action) -> bool {
        match self.stage {
            Stage::Start => new.stage == Stage::Opening && r == (Action::Open {
                create: self.setup.create,
            }),
            Stage::Opening => match ev {
                Event::Failed { detail } => r == (Action::Abort {
                    error: BootstrapError::Open { detail },
                }),
                _ => if self.setup.check_integrity {
                    new.stage == Stage::CheckingIntegrity && r is CheckIntegrity
                } else {
                    new.stage == Stage::EnablingForeignKeys && r is EnableForeignKeys
                },
            },
            Stage::CheckingIntegrity => match ev {
                Event::Text { text } => if same_upper(text@, ok_word()) {
                    new.stage == Stage::EnablingForeignKeys && r is EnableForeignKeys
                } else {
                    new.stage == Stage::Failed && r == (Action::Abort {
                        error: BootstrapError::Integrity { report: text },
                    })
                },
                Event::Failed { detail } => r == (Action::Abort {
                    error: BootstrapError::Integrity { report: detail },
                }),
                _ => false,
            },
            Stage::EnablingForeignKeys => match ev {
                Event::Failed { .. } => Self::config_failed(ev, r),
                _ => new.stage == Stage::SettingJournal && r is SetJournalWal,
            },
            Stage::SettingJournal => match ev {
                Event::Text { text } => if !same_upper(text@, wal_word()) {
                    new.stage == Stage::Failed && r == (Action::Abort {
                        error: BootstrapError::Config { detail: text },
                    })
                } else {
                    match self.setup.cache_kb {
                        Some(kb) => new.stage == Stage::SettingCache && r == (
                        Action::SetCacheSize { kb }),
                        None => self.after_config(new, r),
                    }
                },
                _ => Self::config_failed(ev, r),
            },
            Stage::SettingCache => match ev {
                Event::Failed { .. } => Self::config_failed(ev, r),
                _ => self.after_config(new, r),
            },
            Stage::ReadingVersion => match ev {
                Event::Failed { .. } => Self::config_failed(ev, r),
                _ => self.next_step(new, r, 0),
            },
            _ => true,
        }
    }

    /// The transition out of the stages of the step at hand, on an action
    /// that did not fail.
    pub open spec fn step_transition(&self, ev: Event, new: Bootstrap, r: Action) -> bool {
        match self.stage {
            Stage::Beginning => new.stage == Stage::Rereading && r is ReadVersion,
            Stage::Rereading => match ev {
                Event::Version { version } => if self.current().0 > version {
                    new.stage == Stage::Executing && (r matches Action::Execute { statement }
                        && statement@ == canonical(self.current().1))
                } else {
                    new.stage == Stage::Committing && r is Commit
                },
                _ => false,
            },
            Stage::Executing => new.stage == Stage::Stamping && r == (Action::StampVersion {
                version: self.current().0,
            }),
            Stage::Stamping => new.stage == Stage::Committing && r is Commit,
            Stage::Committing => self.next_step(new, r, self.index + 1),
            _ => true,
        }
    }

    /// The transition from this state on `ev` to `new`, with the action `r`.
    pub open spec fn transition(&self, ev: Event, new: Bootstrap, r: Action) -> bool {
        &&& new.setup == self.setup
        &&& ev is Failed ==> new.stage == Stage::Failed && r is Abort
        &&& !in_step(self.stage) ==> self.setup_transition(ev, new, r)
        &&& in_step(self.stage) ==> new.steps == self.steps
        &&& in_step(self.stage) && (ev is Failed || self.stage != Stage::Committing)
            ==> new.index == self.index
        &&& in_step(self.stage) ==> match ev {
            Event::Failed { detail } => self.step_failed(detail, r),
            _ => self.step_transition(ev, new, r),
        }
    }

    /// Takes the outcome of the last action and decides the next one.
    pub fn handle(&mut self, ev: Event) -> (r: Action)
        requires
            old(self).wf(),
            fits(old(self).stage, ev),
        ensures
            final(self).wf(),
            old(self).transition(ev, *final(self), r),
    {
        match self.stage {
            Stage::Start => {
                self.stage = Stage::Opening;
                Action::Open { create: self.setup.create }
            },
            Stage::Opening => match ev {
                Event::Failed { detail } => {
                    self.stage = Stage::Failed;
                    Action::Abort { error: BootstrapError::Open { detail } }
                },
                _ => {
                    if self.setup.check_integrity {
                        self.stage = Stage::CheckingIntegrity;
                        Action::CheckIntegrity
                    } else {
                        self.stage = Stage::EnablingForeignKeys;
                        Action::EnableForeignKeys
                    }
                },
            },
            Stage::CheckingIntegrity => match ev {
                Event::Text { text } => {
                    let ok = is_upper_word(text.as_str(), "OK");
                    proof {
                        reveal_strlit("OK");
                        assert("OK"@ =~= ok_word());
                    }
                    if ok {
                        self.stage = Stage::EnablingForeignKeys;
                        Action::EnableForeignKeys
                    } else {
                        self.stage = Stage::Failed;
                        Action::Abort { error: BootstrapError::Integrity { report: text } }
                    }
                },
                Event::Failed { detail } => {
                    self.stage = Stage::Failed;
                    Action::Abort { error: BootstrapError::Integrity { report: detail } }
                },
                _ => {
                    self.stage = Stage::Failed;
                    Action::Finish
                },
            },
            Stage::EnablingForeignKeys => match ev {
                Event::Failed { detail } => {
                    self.stage = Stage::Failed;
                    Action::Abort { error: BootstrapError::Config { detail } }
                },
                _ => {
                    self.stage = Stage::SettingJournal;
                    Action::SetJournalWal
                },
            },
            Stage::SettingJournal => match ev {
                Event::Text { text } => {
                    let wal = is_upper_word(text.as_str(), "WAL");
                    proof {
                        reveal_strlit("WAL");
                        assert("WAL"@ =~= wal_word());
                    }
                    if !wal {
                        self.stage = Stage::Failed;
                        Action::Abort { error: BootstrapError::Config { detail: text } }
                    } else {
                        match self.setup.cache_kb {
                            Some(kb) => {
                                self.stage = Stage::SettingCache;
                                Action::SetCacheSize { kb }
                            },
                            None => {
                                self.index = 0;
                                self.finish_config()
                            },
                        }
                    }
                },
                Event::Failed { detail } => {
                    self.stage = Stage::Failed;
                    Action::Abort { error: BootstrapError::Config { detail } }
                },
                _ => {
                    self.stage = Stage::Failed;
                    Action::Finish
                },
            },
            Stage::SettingCache => match ev {
                Event::Failed { detail } => {
                    self.stage = Stage::Failed;
                    Action::Abort { error: BootstrapError::Config { detail } }
                },
                _ => {
                    self.index = 0;
                    self.finish_config()
                },
            },
            Stage::ReadingVersion => match ev {
                Event::Failed { detail } => {
                    self.stage = Stage::Failed;
                    Action::Abort { error: BootstrapError::Config { detail } }
                },
                _ => self.begin_step(0),
            },
            Stage::Finished | Stage::Failed => {
                self.stage = Stage::Failed;
                Action::Finish
            },
            _ => self.handle_step(ev),
        }
    }

    /// The error of a failed action within the step at hand.
    fn step_error(&self, detail: String) -> (r: Action)
        requires
            self.index < self.steps@.len(),
        ensures
            self.step_failed(detail, r),
    {
        let st = &self.steps[self.index];
        proof {
            assert(self.step_seq()[self.index as int] == st@);
        }
        Action::Abort {
            error: BootstrapError::Migration {
                version: st.version,
                statement: st.statement.clone(),
                detail,
            },
        }
    }

    fn handle_step(&mut self, ev: Event) -> (r: Action)
        requires
            old(self).wf(),
            in_step(old(self).stage),
            fits(old(self).stage, ev),
        ensures
            final(self).wf(),
            old(self).transition(ev, *final(self), r),
    {
        let i = self.index;
        let n = self.steps.len();
        assert(i < n);
        let version = self.steps[i].version;
        proof {
            assert(self.step_seq()[i as int] == self.steps@[i as int]@);
        }
        if let Event::Failed { detail } = ev {
            let r = self.step_error(detail);
            self.stage = Stage::Failed;
            return r;
        }
        match self.stage {
            Stage::Beginning => {
                self.stage = Stage::Rereading;
                Action::ReadVersion
            },
            Stage::Rereading => {
                let stored = match ev {
                    Event::Version { version } => version,
                    _ => 0,
                };
                if version > stored {
                    let statement = normalize_statement(self.steps[i].statement.as_str());
                    self.stage = Stage::Executing;
                    Action::Execute { statement }
                } else {
                    self.stage = Stage::Committing;
                    Action::Commit
                }
            },
            Stage::Executing => {
                self.stage = Stage::Stamping;
                Action::StampVersion { version }
            },
            Stage::Stamping => {
                self.stage = Stage::Committing;
                Action::Commit
            },
            _ => self.begin_step(i + 1),
        }
    }
}

} // verus!
