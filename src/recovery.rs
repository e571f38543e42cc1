//! Startup recovery: the active log is quarantined (renamed aside), a fresh
//! active log is created, the quarantined records are replayed through the
//! store's execute step (each one re-appended to the fresh log), and the
//! quarantine file is deleted, or, on any failure, renamed back.
//!
//! The protocol is a state machine: `Recovery::step` takes the outcome of
//! the last file operation and names the next one. Whoever owns the files
//! performs the operations and reports back.
//!
//! A quarantine file already present at startup is left by an interrupted
//! recovery and may hold the only copy of the log: recovery then fails with
//! `StaleQuarantine` and touches nothing, rather than overwrite or ignore it.
use crate::codec::{decode, encode, spec_decode, spec_encode, Command, CommandView};
use crate::error::{ErrorView, KvStoreError};
use crate::codec::representable;
use crate::store::{
    all_succeed, apply_all, lemma_replay_equivalence, logged, replay, spec_execute, KvStore,
};
use vstd::prelude::*;

verus! {

/// The suffix added to the log's extension to name its quarantine file.
pub open spec fn old_suffix() -> Seq<char> {
    seq!['.', 'o', 'l', 'd']
}

/// Whether the last component of a path (what follows its last `/`) has an
/// extension: a `.` that does not open the component, in a component other
/// than `..`.
pub open spec fn has_extension(p: Seq<char>) -> bool {
    &&& exists|i: int|
        0 < i < p.len() && #[trigger] p[i] == '.' && p[i - 1] != '/' && forall|j: int|
            i < j < p.len() ==> p[j] != '/'
    &&& !(p.len() >= 2 && p[p.len() - 1] == '.' && p[p.len() - 2] == '.' && (p.len() == 2 || p[p.len()
        - 3] == '/'))
}

/// The quarantine path of a log path: its extension with `.old` appended,
/// which is the whole path with `.old` appended.
pub open spec fn spec_quarantine_path(p: Seq<char>) -> Option<Seq<char>> {
    if has_extension(p) {
        Some(p + old_suffix())
    } else {
        None
    }
}

/// The path that the log at `wal` is renamed to during recovery, or
/// `InvalidWalFileName` where `wal` has no extension to extend.
pub fn quarantine_path(wal: &str) -> (r: Result<String, KvStoreError>)
    ensures
        spec_quarantine_path(wal@) is Some ==> r is Ok && r->Ok_0@ == spec_quarantine_path(
            wal@,
        )->Some_0,
        spec_quarantine_path(wal@) is None ==> r is Err && r->Err_0@
            == ErrorView::InvalidWalFileName,
{
    let n = wal.unicode_len();
    let mut i: usize = n;
    let mut found = false;
    while i > 0
        invariant_except_break
            !found,
        invariant
            n == wal@.len(),
            i <= n,
            forall|j: int| i <= j < n ==> wal@[j] != '/',
            forall|k: int|
                i <= k < n && 0 < k && #[trigger] wal@[k] == '.' ==> wal@[k - 1] == '/',
        ensures
            found ==> (i >= 2 && wal@[i - 1] == '.' && wal@[i - 2] != '/'),
            !found ==> (i == 0 || wal@[i - 1] == '/'),
        decreases i,
    {
        let c = wal.get_char(i - 1);
        if c == '/' {
            break;
        }
        if c == '.' && i >= 2 && wal.get_char(i - 2) != '/' {
            found = true;
            break;
        }
        i = i - 1;
    }
    let dotdot = n >= 2 && wal.get_char(n - 1) == '.' && wal.get_char(n - 2) == '.' && (n == 2
        || wal.get_char(n - 3) == '/');
    proof {
        if !found {
            assert forall|k: int|
                0 < k < n && #[trigger] wal@[k] == '.' && wal@[k - 1] != '/' implies exists|j: int|
                k < j < n && wal@[j] == '/' by {
                if i == 0 || k >= i {
                } else {
                    assert(wal@[i - 1] == '/');
                }
            }
        }
    }
    if found && !dotdot {
        proof {
            reveal_strlit(".old");
            assert(wal@[i - 1] == '.');
        }
        let mut s = String::from_str(wal);
        s.append(".old");
        proof {
            assert(s@ =~= wal@ + old_suffix());
        }
        Ok(s)
    } else {
        Err(KvStoreError::InvalidWalFileName)
    }
}

/// Where a recovery stands.
#[derive(Debug, Clone, Copy, PartialEq, Eq, Structural)]
pub enum Phase {
    /// Waiting to learn which log files exist.
    Detect,
    /// The active log is being renamed to its quarantine path.
    Quarantining,
    /// The fresh active log is being created.
    Creating,
    /// The quarantined log is being opened for reading.
    Opening,
    /// Waiting for the next record of the quarantined log.
    Reading,
    /// The record of the command in hand is being appended to the fresh log.
    Appending,
    /// The quarantined log is being deleted after a full replay.
    Removing,
    /// The quarantined log is being renamed back after a failure.
    RollingBack,
    /// Recovery succeeded: the store is ready.
    Ready,
    /// Recovery failed: no store is produced.
    Failed,
}

/// The outcome of the file operation that the last action asked for.
pub enum Event {
    /// Whether the active log and the quarantine file exist (the latter is
    /// false where the log's path has no quarantine path).
    Probed { log_exists: bool, quarantine_exists: bool },
    /// The operation succeeded.
    Done,
    /// The operation failed, with the cause.
    IoFailed(String),
    /// The next line of the quarantined log, without its terminator.
    Line(String),
    /// The quarantined log has no more lines.
    EndOfLog,
}

/// The next file operation to perform, then report with an `Event`.
pub enum Action {
    /// Rename the active log to its quarantine path.
    Quarantine,
    /// Create the active log afresh (truncating it).
    CreateLog,
    /// Open the quarantined log for reading.
    OpenQuarantine,
    /// Read the next line of the quarantined log.
    ReadLine,
    /// Append this record, newline-terminated, to the active log, durably.
    Append(String),
    /// Delete the quarantined log; a failure here is only worth a warning.
    DeleteQuarantine,
    /// Rename the quarantined log back to the active path, discarding the
    /// fresh log.
    Restore,
    /// Recovery is over and succeeded.
    Finish,
    /// Recovery is over and failed with this error.
    Fail(KvStoreError),
}

/// The mathematical value of an `Event`.
pub enum EventView {
    Probed { log_exists: bool, quarantine_exists: bool },
    Done,
    IoFailed(Seq<char>),
    Line(Seq<char>),
    EndOfLog,
}

/// The mathematical value of an `Action`.
pub enum ActionView {
    Quarantine,
    CreateLog,
    OpenQuarantine,
    ReadLine,
    Append(Seq<char>),
    DeleteQuarantine,
    Restore,
    Finish,
    Fail(ErrorView),
}

impl View for Event {
    type V = EventView;

    open spec fn view(&self) -> EventView {
        match self {
            Event::Probed { log_exists, quarantine_exists } => EventView::Probed {
                log_exists: *log_exists,
                quarantine_exists: *quarantine_exists,
            },
            Event::Done => EventView::Done,
            Event::IoFailed(m) => EventView::IoFailed(m@),
            Event::Line(l) => EventView::Line(l@),
            Event::EndOfLog => EventView::EndOfLog,
        }
    }
}

impl View for Action {
    type V = ActionView;

    open spec fn view(&self) -> ActionView {
        match self {
            Action::Quarantine => ActionView::Quarantine,
            Action::CreateLog => ActionView::CreateLog,
            Action::OpenQuarantine => ActionView::OpenQuarantine,
            Action::ReadLine => ActionView::ReadLine,
            Action::Append(r) => ActionView::Append(r@),
            Action::DeleteQuarantine => ActionView::DeleteQuarantine,
            Action::Restore => ActionView::Restore,
            Action::Finish => ActionView::Finish,
            Action::Fail(e) => ActionView::Fail(e@),
        }
    }
}

/// The mathematical state of a recovery.
pub struct RecoveryView {
    pub phase: Phase,
    /// The quarantine path of the log, where it has one.
    pub quarantine: Option<Seq<char>>,
    /// Whether a prior log was found and quarantined.
    pub has_old: bool,
    /// The command whose record is being appended.
    pub pending: Option<CommandView>,
    /// The error that a rollback under way will report.
    pub error: Option<ErrorView>,
    /// The index rebuilt so far.
    pub index: Map<Seq<char>, Seq<char>>,
    /// The lines of the quarantined log read so far.
    pub lines: Seq<Seq<char>>,
}

/// Which events answer the action that a phase has asked for.
pub open spec fn expects(phase: Phase, e: EventView) -> bool {
    match phase {
        Phase::Detect => e is Probed,
        Phase::Reading => e is Line || e is EndOfLog || e is IoFailed,
        Phase::Ready | Phase::Failed => false,
        _ => e is Done || e is IoFailed,
    }
}

/// Giving up: rename the quarantined log back, then report `e`.
pub open spec fn rollback(s: RecoveryView, e: ErrorView) -> (RecoveryView, ActionView) {
    (RecoveryView { phase: Phase::RollingBack, error: Some(e), ..s }, ActionView::Restore)
}

/// Applying a decoded command: a logged one is appended first; one that is
/// not (a `get`) is applied at once.
pub open spec fn replay_command(s: RecoveryView, c: CommandView) -> (RecoveryView, ActionView) {
    if logged(c) {
        (
            RecoveryView { phase: Phase::Appending, pending: Some(c), ..s },
            ActionView::Append(spec_encode(c)),
        )
    } else {
        apply_command(s, c)
    }
}

/// Applying a command to the index rebuilt so far, then reading on.
pub open spec fn apply_command(s: RecoveryView, c: CommandView) -> (RecoveryView, ActionView) {
    let (m, r) = spec_execute(s.index, c);
    match r {
        Err(e) => rollback(RecoveryView { pending: None, ..s }, e),
        Ok(_) => (
            RecoveryView { phase: Phase::Reading, pending: None, index: m, ..s },
            ActionView::ReadLine,
        ),
    }
}

/// The recovery protocol: from a state and the outcome of the last
/// operation, the next state and the next operation.
pub open spec fn spec_step(s: RecoveryView, e: EventView) -> (RecoveryView, ActionView) {
    match (s.phase, e) {
        (Phase::Detect, EventView::Probed { log_exists, quarantine_exists }) => {
            if quarantine_exists && s.quarantine is Some {
                (
                    RecoveryView { phase: Phase::Failed, ..s },
                    ActionView::Fail(ErrorView::StaleQuarantine(s.quarantine->Some_0)),
                )
            } else if !log_exists {
                (RecoveryView { phase: Phase::Creating, has_old: false, ..s }, ActionView::CreateLog)
            } else if s.quarantine is None {
                (
                    RecoveryView { phase: Phase::Failed, ..s },
                    ActionView::Fail(ErrorView::InvalidWalFileName),
                )
            } else {
                (
                    RecoveryView { phase: Phase::Quarantining, has_old: true, ..s },
                    ActionView::Quarantine,
                )
            }
        },
        (Phase::Quarantining, EventView::Done) => (
            RecoveryView { phase: Phase::Creating, ..s },
            ActionView::CreateLog,
        ),
        (Phase::Quarantining, EventView::IoFailed(m)) => (
            RecoveryView { phase: Phase::Failed, ..s },
            ActionView::Fail(ErrorView::FailedWalRename(m)),
        ),
        (Phase::Creating, EventView::Done) => if s.has_old {
            (RecoveryView { phase: Phase::Opening, ..s }, ActionView::OpenQuarantine)
        } else {
            (RecoveryView { phase: Phase::Ready, ..s }, ActionView::Finish)
        },
        (Phase::Creating, EventView::IoFailed(m)) => if s.has_old {
            rollback(s, ErrorView::FailedWalOpen(m))
        } else {
            (
                RecoveryView { phase: Phase::Failed, ..s },
                ActionView::Fail(ErrorView::FailedWalOpen(m)),
            )
        },
        (Phase::Opening, EventView::Done) => (
            RecoveryView { phase: Phase::Reading, ..s },
            ActionView::ReadLine,
        ),
        (Phase::Opening, EventView::IoFailed(m)) => rollback(s, ErrorView::FailedOldWalOpen(m)),
        (Phase::Reading, EventView::Line(l)) => {
            let s1 = RecoveryView { lines: s.lines.push(l), ..s };
            match spec_decode(l) {
                Err(e) => rollback(s1, e),
                Ok(c) => replay_command(s1, c),
            }
        },
        (Phase::Reading, EventView::EndOfLog) => (
            RecoveryView { phase: Phase::Removing, ..s },
            ActionView::DeleteQuarantine,
        ),
        (Phase::Reading, EventView::IoFailed(m)) => rollback(s, ErrorView::FailedWalLineRead(m)),
        (Phase::Appending, EventView::Done) => apply_command(s, s.pending->Some_0),
        (Phase::Appending, EventView::IoFailed(m)) => rollback(s, ErrorView::FailedWalWrite(m)),
        (Phase::Removing, _) => (RecoveryView { phase: Phase::Ready, ..s }, ActionView::Finish),
        (Phase::RollingBack, EventView::Done) => (
            RecoveryView { phase: Phase::Failed, error: None, ..s },
            ActionView::Fail(s.error->Some_0),
        ),
        (Phase::RollingBack, EventView::IoFailed(m)) => (
            RecoveryView { phase: Phase::Failed, ..s },
            ActionView::Fail(ErrorView::FailedWalRestore(m)),
        ),
        // An event that does not answer the pending action; `step` rules it out.
        _ => (s, ActionView::ReadLine),
    }
}

/// What holds of every reachable state: before replay nothing has been read
/// and the index is empty; while reading and once ready, the index is the
/// replay of the lines read; while appending, of all lines but the last,
/// whose command is in hand.
pub open spec fn recovery_inv(s: RecoveryView) -> bool {
    &&& (s.phase is Detect || s.phase is Quarantining || s.phase is Creating || s.phase is Opening)
        ==> s.lines.len() == 0 && s.index == Map::<Seq<char>, Seq<char>>::empty()
    &&& (s.phase is Reading || s.phase is Removing || s.phase is Ready) ==> replay(
        Map::empty(),
        s.lines,
    ) == Ok::<_, ErrorView>(s.index)
    &&& s.phase is Appending ==> {
        &&& s.lines.len() > 0
        &&& s.pending is Some
        &&& spec_decode(s.lines.last()) == Ok::<_, ErrorView>(s.pending->Some_0)
        &&& replay(Map::empty(), s.lines.drop_last()) == Ok::<_, ErrorView>(s.index)
    }
    &&& s.phase is RollingBack ==> s.error is Some
}

/// The state in which the recovery of a log with quarantine path `q` starts.
pub open spec fn initial(q: Option<Seq<char>>) -> RecoveryView {
    RecoveryView {
        phase: Phase::Detect,
        quarantine: q,
        has_old: false,
        pending: None,
        error: None,
        index: Map::empty(),
        lines: Seq::empty(),
    }
}

/// A malformed record in the quarantined log turns the recovery back: the
/// next operation renames the quarantined log to the active path, and once
/// that is done recovery fails with the decoding error.
pub proof fn lemma_malformed_line_rolls_back(s: RecoveryView, l: Seq<char>)
    requires
        s.phase == Phase::Reading,
        spec_decode(l) is Err,
    ensures
        ({
            let (s1, a1) = spec_step(s, EventView::Line(l));
            let (s2, a2) = spec_step(s1, EventView::Done);
            &&& a1 == ActionView::Restore
            &&& s1.phase == Phase::RollingBack
            &&& a2 == ActionView::Fail(spec_decode(l)->Err_0)
            &&& s2.phase == Phase::Failed
        }),
{
}

/// Opening with no prior log creates an empty log and ends ready with an
/// empty index; opening again, over that empty log, quarantines it, replays
/// nothing, deletes the quarantine file and ends ready with an empty index.
pub proof fn lemma_empty_recovery(q: Seq<char>)
    ensures
        ({
            let s0 = initial(Some(q));
            let (s1, a1) = spec_step(
                s0,
                EventView::Probed { log_exists: false, quarantine_exists: false },
            );
            let (s2, a2) = spec_step(s1, EventView::Done);
            &&& a1 == ActionView::CreateLog
            &&& a2 == ActionView::Finish
            &&& s2.phase == Phase::Ready
            &&& s2.index == Map::<Seq<char>, Seq<char>>::empty()
        }),
        ({
            let s0 = initial(Some(q));
            let (s1, a1) = spec_step(
                s0,
                EventView::Probed { log_exists: true, quarantine_exists: false },
            );
            let (s2, a2) = spec_step(s1, EventView::Done);
            let (s3, a3) = spec_step(s2, EventView::Done);
            let (s4, a4) = spec_step(s3, EventView::Done);
            let (s5, a5) = spec_step(s4, EventView::EndOfLog);
            let (s6, a6) = spec_step(s5, EventView::Done);
            &&& a1 == ActionView::Quarantine
            &&& a2 == ActionView::CreateLog
            &&& a3 == ActionView::OpenQuarantine
            &&& a4 == ActionView::ReadLine
            &&& a5 == ActionView::DeleteQuarantine
            &&& a6 == ActionView::Finish
            &&& s6.phase == Phase::Ready
            &&& s6.index == Map::<Seq<char>, Seq<char>>::empty()
        }),
{
}

/// A recovery that read, as its quarantined log, the records that a run of
/// `set` and `rm` commands wrote ends with the index that the run left,
/// provided each command succeeded and each key and value is a word.
pub proof fn lemma_reopen_rebuilds_index(s: RecoveryView, cs: Seq<CommandView>)
    requires
        recovery_inv(s),
        s.phase == Phase::Ready,
        s.lines == cs.map_values(|c: CommandView| spec_encode(c)),
        forall|i: int| 0 <= i < cs.len() ==> logged(#[trigger] cs[i]) && representable(cs[i]),
        all_succeed(Map::empty(), cs),
    ensures
        s.index == apply_all(Map::empty(), cs),
{
    lemma_replay_equivalence(Map::empty(), cs);
}

/// Replaying one more line continues from the replay of those before it.
proof fn lemma_replay_push(lines: Seq<Seq<char>>, l: Seq<char>)
    ensures
        replay(Map::empty(), lines.push(l)) == match replay(Map::empty(), lines) {
            Err(e) => Err(e),
            Ok(m) => crate::store::replay_line(m, l),
        },
{
    assert(lines.push(l).drop_last() =~= lines);
}

/// A recovery in progress: the protocol's state and the store it rebuilds.
pub struct Recovery {
    phase: Phase,
    quarantine: Option<String>,
    has_old: bool,
    pending: Option<Command>,
    error: Option<KvStoreError>,
    kv: KvStore,
    lines: Ghost<Seq<Seq<char>>>,
}

impl View for Recovery {
    type V = RecoveryView;

    closed spec fn view(&self) -> RecoveryView {
        RecoveryView {
            phase: self.phase,
            quarantine: match self.quarantine {
                Some(q) => Some(q@),
                None => None,
            },
            has_old: self.has_old,
            pending: match self.pending {
                Some(c) => Some(c@),
                None => None,
            },
            error: match self.error {
                Some(e) => Some(e@),
                None => None,
            },
            index: self.kv@,
            lines: self.lines@,
        }
    }
}

impl Recovery {
    /// Starts the recovery of the log at path `wal`.
    pub fn new(wal: &str) -> (r: Recovery)
        ensures
            r@ == initial(spec_quarantine_path(wal@)),
            recovery_inv(r@),
    {
        let quarantine = match quarantine_path(wal) {
            Ok(q) => Some(q),
            Err(_) => None,
        };
        let r = Recovery {
            phase: Phase::Detect,
            quarantine,
            has_old: false,
            pending: None,
            error: None,
            kv: KvStore::new(),
            lines: Ghost(Seq::empty()),
        };
        proof {
            assert(r@.lines =~= initial(spec_quarantine_path(wal@)).lines);
        }
        r
    }

    /// The phase the recovery is in.
    pub fn phase(&self) -> (r: Phase)
        ensures
            r == self@.phase,
    {
        self.phase
    }

    /// Whether `e` answers the action that the current phase asked for.
    pub fn expects_event(&self, e: &Event) -> (r: bool)
        ensures
            r == expects(self@.phase, e@),
    {
        match self.phase {
            Phase::Detect => match e {
                Event::Probed { .. } => true,
                _ => false,
            },
            Phase::Reading => match e {
                Event::Line(_) | Event::EndOfLog | Event::IoFailed(_) => true,
                _ => false,
            },
            Phase::Ready | Phase::Failed => false,
            _ => match e {
                Event::Done | Event::IoFailed(_) => true,
                _ => false,
            },
        }
    }

    fn roll_back(&mut self, e: KvStoreError) -> (a: Action)
        ensures
            (final(self)@, a@) == rollback(old(self)@, e@),
    {
        self.phase = Phase::RollingBack;
        self.error = Some(e);
        Action::Restore
    }

    fn apply(&mut self, c: Command) -> (a: Action)
        ensures
            (final(self)@, a@) == apply_command(old(self)@, c@),
    {
        self.pending = None;
        match self.kv.execute(c) {
            Err(e) => self.roll_back(e),
            Ok(_) => {
                self.phase = Phase::Reading;
                Action::ReadLine
            },
        }
    }

    /// Advances the protocol by the outcome of the last operation and
    /// returns the next operation to perform.
    pub fn step(&mut self, e: Event) -> (a: Action)
        requires
            expects(old(self)@.phase, e@),
            recovery_inv(old(self)@),
        ensures
            (final(self)@, a@) == spec_step(old(self)@, e@),
            recovery_inv(final(self)@),
    {
        let ghost s = self@;
        let a = match (self.phase, e) {
            (Phase::Detect, Event::Probed { log_exists, quarantine_exists }) => {
                if quarantine_exists && self.quarantine.is_some() {
                    self.phase = Phase::Failed;
                    let q = match &self.quarantine {
                        Some(q) => q.clone(),
                        None => String::new(),
                    };
                    Action::Fail(KvStoreError::StaleQuarantine(q))
                } else if !log_exists {
                    self.phase = Phase::Creating;
                    self.has_old = false;
                    Action::CreateLog
                } else if self.quarantine.is_none() {
                    self.phase = Phase::Failed;
                    Action::Fail(KvStoreError::InvalidWalFileName)
                } else {
                    self.phase = Phase::Quarantining;
                    self.has_old = true;
                    Action::Quarantine
                }
            },
            (Phase::Quarantining, Event::Done) => {
                self.phase = Phase::Creating;
                Action::CreateLog
            },
            (Phase::Quarantining, Event::IoFailed(m)) => {
                self.phase = Phase::Failed;
                Action::Fail(KvStoreError::FailedWalRename(m))
            },
            (Phase::Creating, Event::Done) => if self.has_old {
                self.phase = Phase::Opening;
                Action::OpenQuarantine
            } else {
                self.phase = Phase::Ready;
                Action::Finish
            },
            (Phase::Creating, Event::IoFailed(m)) => if self.has_old {
                self.roll_back(KvStoreError::FailedWalOpen(m))
            } else {
                self.phase = Phase::Failed;
                Action::Fail(KvStoreError::FailedWalOpen(m))
            },
            (Phase::Opening, Event::Done) => {
                self.phase = Phase::Reading;
                Action::ReadLine
            },
            (Phase::Opening, Event::IoFailed(m)) => self.roll_back(
                KvStoreError::FailedOldWalOpen(m),
            ),
            (Phase::Reading, Event::Line(l)) => {
                proof {
                    lemma_replay_push(s.lines, l@);
                    assert(s.lines.push(l@).drop_last() =~= s.lines);
                }
                self.lines = Ghost(self.lines@.push(l@));
                match decode(l.as_str()) {
                    Err(err) => self.roll_back(err),
                    Ok(c) => match c {
                        Command::Get { .. } => self.apply(c),
                        _ => {
                            let record = encode(&c);
                            self.phase = Phase::Appending;
                            self.pending = Some(c);
                            Action::Append(record)
                        },
                    },
                }
            },
            (Phase::Reading, Event::EndOfLog) => {
                self.phase = Phase::Removing;
                Action::DeleteQuarantine
            },
            (Phase::Reading, Event::IoFailed(m)) => self.roll_back(
                KvStoreError::FailedWalLineRead(m),
            ),
            (Phase::Appending, Event::Done) => {
                proof {
                    assert(s.lines.drop_last().push(s.lines.last()) =~= s.lines);
                    lemma_replay_push(s.lines.drop_last(), s.lines.last());
                }
                let c = match self.pending.take() {
                    Some(c) => c,
                    None => Command::Get { key: String::new() },
                };
                self.apply(c)
            },
            (Phase::Appending, Event::IoFailed(m)) => self.roll_back(
                KvStoreError::FailedWalWrite(m),
            ),
            (Phase::Removing, _) => {
                self.phase = Phase::Ready;
                Action::Finish
            },
            (Phase::RollingBack, Event::Done) => {
                self.phase = Phase::Failed;
                match self.error.take() {
                    Some(err) => Action::Fail(err),
                    None => Action::Fail(KvStoreError::MissingCommand),
                }
            },
            (Phase::RollingBack, Event::IoFailed(m)) => {
                self.phase = Phase::Failed;
                Action::Fail(KvStoreError::FailedWalRestore(m))
            },
            _ => Action::ReadLine,
        };
        a
    }

    /// The store that a successful recovery rebuilt: the replay of every
    /// line of the quarantined log, or empty where there was none.
    pub fn into_store(self) -> (r: KvStore)
        requires
            self@.phase == Phase::Ready,
            recovery_inv(self@),
        ensures
            replay(Map::empty(), self@.lines) == Ok::<_, ErrorView>(r@),
    {
        self.kv
    }
}

} // verus!
