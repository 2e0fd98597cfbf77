use sqlboot::migrate::{Action, Bootstrap, BootstrapError, Event, SqliteSetup, Stage};

/// A store in memory that answers the machine's actions.
struct FakeStore {
    version: u32,
    integrity: String,
    journal: String,
    fail_statement: Option<String>,
    executed: Vec<String>,
    cache: Option<u32>,
    pending: Option<(u32, Vec<String>)>,
}

impl FakeStore {
    fn new(version: u32) -> FakeStore {
        FakeStore {
            version,
            integrity: "ok".to_string(),
            journal: "wal".to_string(),
            fail_statement: None,
            executed: Vec::new(),
            cache: None,
            pending: None,
        }
    }

    fn run(&mut self, setup: SqliteSetup) -> Result<(), BootstrapError> {
        let mut b = Bootstrap::new(setup);
        let mut ev = Event::Start;
        loop {
            assert!(b.accepts(&ev));
            let action = b.handle(ev);
            ev = match action {
                Action::Open { .. } => Event::Succeeded,
                Action::CheckIntegrity => Event::Text { text: self.integrity.clone() },
                Action::EnableForeignKeys => Event::Succeeded,
                Action::SetJournalWal => Event::Text { text: self.journal.clone() },
                Action::SetCacheSize { kb } => {
                    self.cache = Some(kb);
                    Event::Succeeded
                }
                Action::ReadVersion => {
                    let v = match &self.pending {
                        Some((v, _)) => *v,
                        None => self.version,
                    };
                    Event::Version { version: v }
                }
                Action::Begin => {
                    self.pending = Some((self.version, Vec::new()));
                    Event::Succeeded
                }
                Action::Execute { statement } => {
                    if self.fail_statement.as_deref() == Some(statement.as_str()) {
                        Event::Failed { detail: "syntax error".to_string() }
                    } else {
                        self.pending.as_mut().unwrap().1.push(statement);
                        Event::Succeeded
                    }
                }
                Action::StampVersion { version } => {
                    self.pending.as_mut().unwrap().0 = version;
                    Event::Succeeded
                }
                Action::Commit => {
                    let (v, done) = self.pending.take().unwrap();
                    self.version = v;
                    self.executed.extend(done);
                    Event::Succeeded
                }
                Action::Finish => {
                    assert_eq!(b.stage, Stage::Finished);
                    return Ok(());
                }
                Action::Abort { error } => {
                    self.pending = None;
                    assert_eq!(b.stage, Stage::Failed);
                    return Err(error);
                }
            };
        }
    }
}

fn setup_with(schema: &str) -> SqliteSetup {
    let mut s = SqliteSetup::new();
    s.schema(schema);
    s
}

const THREE: &str = "-- v 1\nCREATE TABLE a (x INT)\n-- v 2\nCREATE TABLE b (\n  y INT\n)\n-- v 3\nCREATE TABLE c (z INT)\n";

#[test]
fn order_preservation() {
    let mut store = FakeStore::new(1);
    assert!(store.run(setup_with(THREE)).is_ok());
    assert_eq!(store.executed, vec!["CREATE TABLE b (y INT)", "CREATE TABLE c (z INT)"]);
    assert_eq!(store.version, 3);
}

#[test]
fn idempotence() {
    let mut store = FakeStore::new(0);
    assert!(store.run(setup_with(THREE)).is_ok());
    assert_eq!(store.version, 3);
    assert_eq!(store.executed.len(), 3);
    assert!(store.run(setup_with(THREE)).is_ok());
    assert_eq!(store.version, 3);
    assert_eq!(store.executed.len(), 3);
}

#[test]
fn monotonicity() {
    let mut store = FakeStore::new(7);
    assert!(store.run(setup_with(THREE)).is_ok());
    assert_eq!(store.version, 7);
    assert!(store.executed.is_empty());
}

#[test]
fn atomicity() {
    let mut store = FakeStore::new(1);
    store.fail_statement = Some("CREATE TABLE b (y INT)".to_string());
    match store.run(setup_with(THREE)) {
        Err(BootstrapError::Migration { version, statement, detail }) => {
            assert_eq!(version, 2);
            assert_eq!(statement, "CREATE TABLE b (\n  y INT\n)");
            assert_eq!(detail, "syntax error");
        }
        _ => panic!("expected a migration error"),
    }
    assert_eq!(store.version, 1);
    assert!(store.executed.is_empty());
}

#[test]
fn integrity_gate() {
    let mut store = FakeStore::new(0);
    store.integrity = "*** in database main ***\nPage 3 is never used".to_string();
    match store.run(setup_with(THREE)) {
        Err(BootstrapError::Integrity { report }) => {
            assert_eq!(report, "*** in database main ***\nPage 3 is never used")
        }
        _ => panic!("expected an integrity error"),
    }
    assert_eq!(store.version, 0);
    assert!(store.executed.is_empty());
}

#[test]
fn integrity_ok_in_any_case() {
    let mut store = FakeStore::new(0);
    store.integrity = "OK".to_string();
    assert!(store.run(setup_with(THREE)).is_ok());
    store.integrity = "oK".to_string();
    assert!(store.run(setup_with(THREE)).is_ok());
}

#[test]
fn integrity_check_can_be_skipped() {
    let mut store = FakeStore::new(0);
    store.integrity = "corrupt".to_string();
    let mut s = setup_with(THREE);
    s.check_integrity(false);
    assert!(store.run(s).is_ok());
    assert_eq!(store.version, 3);
}

#[test]
fn journal_mode_must_become_wal() {
    let mut store = FakeStore::new(0);
    store.journal = "WAL".to_string();
    assert!(store.run(setup_with(THREE)).is_ok());
    let mut store = FakeStore::new(0);
    store.journal = "delete".to_string();
    match store.run(setup_with(THREE)) {
        Err(BootstrapError::Config { detail }) => assert_eq!(detail, "delete"),
        _ => panic!("expected a configuration error"),
    }
    assert_eq!(store.version, 0);
}

#[test]
fn cache_size_is_applied() {
    let mut store = FakeStore::new(0);
    let mut s = setup_with(THREE);
    s.cache_kb(4096);
    assert!(store.run(s).is_ok());
    assert_eq!(store.cache, Some(4096));
}

#[test]
fn script_parsing_boundary() {
    let mut store = FakeStore::new(4);
    assert!(store.run(setup_with("CREATE TABLE t (a INT);\n")).is_ok());
    assert_eq!(store.version, 4);
    assert!(store.executed.is_empty());
    let mut store = FakeStore::new(0);
    assert!(store.run(SqliteSetup::new()).is_ok());
    assert_eq!(store.version, 0);
}

#[test]
fn bad_marker_stops_before_any_step() {
    let mut store = FakeStore::new(0);
    match store.run(setup_with("-- v 1\nA\n-- v x\nB\n")) {
        Err(BootstrapError::Parse { line }) => assert_eq!(line, "-- v x"),
        _ => panic!("expected a parse error"),
    }
    assert!(store.executed.is_empty());
}

#[test]
fn open_failure_is_reported() {
    let mut b = Bootstrap::new(SqliteSetup::new());
    match b.handle(Event::Start) {
        Action::Open { create } => assert!(!create),
        _ => panic!("expected an open"),
    }
    match b.handle(Event::Failed { detail: "no such file".to_string() }) {
        Action::Abort { error: BootstrapError::Open { detail } } => assert_eq!(detail, "no such file"),
        _ => panic!("expected an open error"),
    }
    assert!(!b.accepts(&Event::Succeeded));
}

#[test]
fn builder_sets_fields() {
    let mut s = SqliteSetup::new();
    assert!(s.check_integrity);
    s.create(true).check_integrity(false).cache_kb(8).schema("x");
    assert!(s.create);
    assert!(!s.check_integrity);
    assert_eq!(s.cache_kb, Some(8));
    assert_eq!(s.schema.as_deref(), Some("x"));
}
