use kvs::{Action, Command, Event, KvStore, KvStoreError, Phase, Recovery};

const WAL: &str = "store/wa.log";

/// A store directory held in memory: the active log and the quarantine
/// file, each a list of lines when present.
struct Dir {
    active: Option<Vec<String>>,
    quarantine: Option<Vec<String>>,
    fail_appends: bool,
    fail_restore: bool,
}

impl Dir {
    fn empty() -> Dir {
        Dir { active: None, quarantine: None, fail_appends: false, fail_restore: false }
    }

    fn with_log(lines: &[&str]) -> Dir {
        let mut d = Dir::empty();
        d.active = Some(lines.iter().map(|l| l.to_string()).collect());
        d
    }
}

/// Runs recovery over the directory, performing each action it asks for.
fn open(dir: &mut Dir) -> Result<KvStore, KvStoreError> {
    let mut rec = Recovery::new(WAL);
    let mut cursor = 0usize;
    let mut ev = Event::Probed {
        log_exists: dir.active.is_some(),
        quarantine_exists: dir.quarantine.is_some(),
    };
    loop {
        assert!(rec.expects_event(&ev));
        ev = match rec.step(ev) {
            Action::Quarantine => {
                dir.quarantine = dir.active.take();
                Event::Done
            }
            Action::CreateLog => {
                dir.active = Some(Vec::new());
                Event::Done
            }
            Action::OpenQuarantine => {
                cursor = 0;
                Event::Done
            }
            Action::ReadLine => {
                let old = dir.quarantine.as_ref().unwrap();
                if cursor < old.len() {
                    cursor += 1;
                    Event::Line(old[cursor - 1].clone())
                } else {
                    Event::EndOfLog
                }
            }
            Action::Append(r) => {
                if dir.fail_appends {
                    Event::IoFailed("no space left".to_owned())
                } else {
                    dir.active.as_mut().unwrap().push(r);
                    Event::Done
                }
            }
            Action::DeleteQuarantine => {
                dir.quarantine = None;
                Event::Done
            }
            Action::Restore => {
                if dir.fail_restore {
                    Event::IoFailed("permission denied".to_owned())
                } else {
                    dir.active = dir.quarantine.take();
                    Event::Done
                }
            }
            Action::Finish => {
                assert_eq!(rec.phase(), Phase::Ready);
                return Ok(rec.into_store());
            }
            Action::Fail(e) => {
                assert_eq!(rec.phase(), Phase::Failed);
                return Err(e);
            }
        };
    }
}

/// A live call: the record first, then the index.
fn run(dir: &mut Dir, kv: &mut KvStore, cmd: Command) -> Result<String, KvStoreError> {
    if let Some(r) = KvStore::record_of(&cmd) {
        dir.active.as_mut().unwrap().push(r);
    }
    kv.execute(cmd)
}

fn set(k: &str, v: &str) -> Command {
    Command::Insert { key: k.to_owned(), value: v.to_owned() }
}

fn rm(k: &str) -> Command {
    Command::Rm { key: k.to_owned() }
}

#[test]
fn scenario_set_set_remove_reopen() {
    let mut dir = Dir::empty();
    let mut kv = open(&mut dir).unwrap();
    run(&mut dir, &mut kv, set("a", "1")).unwrap();
    run(&mut dir, &mut kv, set("b", "2")).unwrap();
    run(&mut dir, &mut kv, rm("a")).unwrap();
    drop(kv);
    let kv = open(&mut dir).unwrap();
    assert!(matches!(kv.get("a"), Err(KvStoreError::NotFound(ref k)) if k == "a"));
    assert_eq!(kv.get("b").ok(), Some("2".to_owned()));
    assert!(dir.quarantine.is_none());
    assert_eq!(dir.active, Some(vec!["set a 1".to_owned(), "set b 2".to_owned(), "rm a".to_owned()]));
}

#[test]
fn empty_recovery_twice() {
    let mut dir = Dir::empty();
    let kv = open(&mut dir).unwrap();
    assert!(kv.get("x").is_err());
    assert_eq!(dir.active, Some(Vec::new()));
    let kv = open(&mut dir).unwrap();
    assert!(kv.get("x").is_err());
    assert_eq!(dir.active, Some(Vec::new()));
    assert!(dir.quarantine.is_none());
}

#[test]
fn replay_rebuilds_the_index() {
    let mut dir = Dir::empty();
    let mut kv = open(&mut dir).unwrap();
    let cmds = vec![set("x", "1"), set("y", "2"), set("x", "3"), rm("y"), set("z", "4")];
    for c in cmds {
        run(&mut dir, &mut kv, c).unwrap();
    }
    let again = open(&mut dir).unwrap();
    for k in ["x", "y", "z", "w"] {
        assert_eq!(again.get(k).ok(), kv.get(k).ok(), "{}", k);
    }
}

#[test]
fn malformed_line_rolls_back() {
    let original = vec!["set a 1", "bogus line", "set b 2"];
    let mut dir = Dir::with_log(&original);
    let r = open(&mut dir);
    assert!(matches!(r, Err(KvStoreError::InvalidCommand(ref t)) if t == "bogus"));
    let expected: Vec<String> = original.iter().map(|l| l.to_string()).collect();
    assert_eq!(dir.active, Some(expected));
    assert!(dir.quarantine.is_none());
}

#[test]
fn missing_value_in_log_fails_open() {
    let mut dir = Dir::with_log(&["set a"]);
    assert!(matches!(open(&mut dir), Err(KvStoreError::MissingValue(_))));
    assert_eq!(dir.active, Some(vec!["set a".to_owned()]));
}

#[test]
fn logged_remove_of_absent_key_fails_replay() {
    let mut dir = Dir::empty();
    let mut kv = open(&mut dir).unwrap();
    assert!(run(&mut dir, &mut kv, rm("ghost")).unwrap_err().is_not_found());
    assert_eq!(dir.active, Some(vec!["rm ghost".to_owned()]));
    assert!(matches!(open(&mut dir), Err(KvStoreError::NotFound(ref k)) if k == "ghost"));
    assert_eq!(dir.active, Some(vec!["rm ghost".to_owned()]));
}

#[test]
fn stale_quarantine_refuses_to_open() {
    let mut dir = Dir::with_log(&["set a 1"]);
    dir.quarantine = Some(vec!["set b 2".to_owned()]);
    match open(&mut dir) {
        Err(KvStoreError::StaleQuarantine(p)) => assert_eq!(p, "store/wa.log.old"),
        Err(e) => panic!("unexpected error {:?}", e),
        Ok(_) => panic!("opened over a stale quarantine file"),
    }
    assert_eq!(dir.active, Some(vec!["set a 1".to_owned()]));
}

#[test]
fn failed_append_during_replay_rolls_back() {
    let mut dir = Dir::with_log(&["set a 1"]);
    dir.fail_appends = true;
    assert!(matches!(open(&mut dir), Err(KvStoreError::FailedWalWrite(_))));
    assert_eq!(dir.active, Some(vec!["set a 1".to_owned()]));
    assert!(dir.quarantine.is_none());
}

#[test]
fn failed_restore_is_reported() {
    let mut dir = Dir::with_log(&["nonsense"]);
    dir.fail_restore = true;
    assert!(matches!(open(&mut dir), Err(KvStoreError::FailedWalRestore(_))));
}

#[test]
fn log_without_extension_is_refused() {
    let mut rec = Recovery::new("store/wal");
    let a = rec.step(Event::Probed { log_exists: true, quarantine_exists: false });
    assert!(matches!(a, Action::Fail(KvStoreError::InvalidWalFileName)));
    let mut rec = Recovery::new("store/wal");
    let a = rec.step(Event::Probed { log_exists: false, quarantine_exists: false });
    assert!(matches!(a, Action::CreateLog));
}

#[test]
fn failed_rename_fails_without_rollback() {
    let mut rec = Recovery::new(WAL);
    assert!(matches!(
        rec.step(Event::Probed { log_exists: true, quarantine_exists: false }),
        Action::Quarantine
    ));
    let a = rec.step(Event::IoFailed("busy".to_owned()));
    assert!(matches!(a, Action::Fail(KvStoreError::FailedWalRename(ref m)) if m == "busy"));
    assert!(!rec.expects_event(&Event::Done));
}
