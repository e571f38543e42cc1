//! The store's in-memory side: the index, and the step that applies a
//! command to it once its record (if any) is durably in the log.
use crate::codec::{
    encode, lemma_decode_encode, representable, spec_decode, spec_encode, Command, CommandView,
};
use crate::error::{ErrorView, KvStoreError};
use crate::index::{index_get, index_insert, index_new, index_of, index_remove};
use dashmap::DashMap;
use vstd::prelude::*;

verus! {

/// Whether a command changes the index, and so is written to the log before
/// it is applied.
pub open spec fn logged(c: CommandView) -> bool {
    !(c is Get)
}

/// What a command does to the index, and what it returns: `get` the bound
/// value, `set` and `rm` an empty string; `get` and `rm` of an absent key a
/// `NotFound` error, with the index unchanged.
pub open spec fn spec_execute(m: Map<Seq<char>, Seq<char>>, c: CommandView) -> (
    Map<Seq<char>, Seq<char>>,
    Result<Seq<char>, ErrorView>,
) {
    match c {
        CommandView::Get { key } => if m.contains_key(key) {
            (m, Ok(m[key]))
        } else {
            (m, Err(ErrorView::NotFound(key)))
        },
        CommandView::Insert { key, value } => (m.insert(key, value), Ok(Seq::empty())),
        CommandView::Rm { key } => if m.contains_key(key) {
            (m.remove(key), Ok(Seq::empty()))
        } else {
            (m, Err(ErrorView::NotFound(key)))
        },
    }
}

/// The index after the commands of `cs`, in order, from `m`.
pub open spec fn apply_all(m: Map<Seq<char>, Seq<char>>, cs: Seq<CommandView>) -> Map<
    Seq<char>,
    Seq<char>,
>
    decreases cs.len(),
{
    if cs.len() == 0 {
        m
    } else {
        spec_execute(apply_all(m, cs.drop_last()), cs.last()).0
    }
}

/// Whether each command of `cs` succeeds on the index that the ones before
/// it left.
pub open spec fn all_succeed(m: Map<Seq<char>, Seq<char>>, cs: Seq<CommandView>) -> bool
    decreases cs.len(),
{
    if cs.len() == 0 {
        true
    } else {
        all_succeed(m, cs.drop_last()) && spec_execute(apply_all(m, cs.drop_last()), cs.last()).1 is Ok
    }
}

/// Replaying one record: decode it, then apply the command; either failure
/// stops the replay with its error.
pub open spec fn replay_line(m: Map<Seq<char>, Seq<char>>, line: Seq<char>) -> Result<
    Map<Seq<char>, Seq<char>>,
    ErrorView,
> {
    match spec_decode(line) {
        Err(e) => Err(e),
        Ok(c) => {
            let (m2, r) = spec_execute(m, c);
            match r {
                Err(e) => Err(e),
                Ok(_) => Ok(m2),
            }
        },
    }
}

/// Replaying the records of a log, in file order, from `m`: the index that
/// results, or the first error.
pub open spec fn replay(m: Map<Seq<char>, Seq<char>>, lines: Seq<Seq<char>>) -> Result<
    Map<Seq<char>, Seq<char>>,
    ErrorView,
>
    decreases lines.len(),
{
    if lines.len() == 0 {
        Ok(m)
    } else {
        match replay(m, lines.drop_last()) {
            Err(e) => Err(e),
            Ok(m1) => replay_line(m1, lines.last()),
        }
    }
}

/// The value or the error that an execution result carries, as views.
pub open spec fn outcome_view(r: Result<String, KvStoreError>) -> Result<Seq<char>, ErrorView> {
    match r {
        Ok(s) => Ok(s@),
        Err(e) => Err(e@),
    }
}

/// The index of a store: the mapping from key to value that reads consult.
pub struct KvStore {
    store: DashMap<String, String>,
}

impl View for KvStore {
    type V = Map<Seq<char>, Seq<char>>;

    closed spec fn view(&self) -> Map<Seq<char>, Seq<char>> {
        index_of(self.store)
    }
}

impl KvStore {
    /// A store with an empty index.
    pub fn new() -> (r: KvStore)
        ensures
            r@ == Map::<Seq<char>, Seq<char>>::empty(),
    {
        let store = index_new();
        proof {
            assert(index_of(store) =~= Map::<Seq<char>, Seq<char>>::empty());
        }
        KvStore { store }
    }

    /// The record to append to the log before `cmd` is applied: the
    /// encoded command for `set` and `rm` (also when the key of `rm` turns
    /// out to be absent), none for `get`.
    pub fn record_of(cmd: &Command) -> (r: Option<String>)
        ensures
            r is Some <==> logged(cmd@),
            r is Some ==> r->Some_0@ == spec_encode(cmd@),
    {
        match cmd {
            Command::Get { .. } => None,
            _ => Some(encode(cmd)),
        }
    }

    /// The value bound to `key`, or `NotFound(key)`. Reads only.
    pub fn get(&self, key: &str) -> (r: Result<String, KvStoreError>)
        ensures
            outcome_view(r) == spec_execute(self@, CommandView::Get { key: key@ }).1,
    {
        let k = String::from_str(key);
        match index_get(&self.store, &k) {
            Some(v) => Ok(v),
            None => Err(KvStoreError::NotFound(k)),
        }
    }

    /// Binds `key` to `value`, replacing an earlier binding.
    pub fn set(&mut self, key: String, value: String)
        ensures
            final(self)@ == old(self)@.insert(key@, value@),
    {
        index_insert(&mut self.store, key, value);
    }

    /// Removes `key`; `NotFound(key)`, with the index unchanged, where it is
    /// absent.
    pub fn remove(&mut self, key: String) -> (r: Result<(), KvStoreError>)
        ensures
            final(self)@ == spec_execute(old(self)@, CommandView::Rm { key: key@ }).0,
            r is Ok <==> old(self)@.contains_key(key@),
            r is Err ==> r->Err_0@ == ErrorView::NotFound(key@),
    {
        match index_remove(&mut self.store, &key) {
            Some(_) => Ok(()),
            None => {
                proof {
                    assert(index_of(self.store) =~= index_of(old(self).store));
                }
                Err(KvStoreError::NotFound(key))
            },
        }
    }

    /// Applies a command to the index: the single step shared by live calls
    /// and by replay. Returns the value for `get` and an empty string for
    /// `set` and `rm`.
    pub fn execute(&mut self, cmd: Command) -> (r: Result<String, KvStoreError>)
        ensures
            (final(self)@, outcome_view(r)) == spec_execute(old(self)@, cmd@),
    {
        match cmd {
            Command::Get { key } => self.get(key.as_str()),
            Command::Insert { key, value } => {
                self.set(key, value);
                Ok(String::new())
            },
            Command::Rm { key } => match self.remove(key) {
                Ok(()) => Ok(String::new()),
                Err(e) => Err(e),
            },
        }
    }
}

/// A value bound by `set` is what `get` of the same key then returns.
pub proof fn lemma_set_then_get(m: Map<Seq<char>, Seq<char>>, key: Seq<char>, value: Seq<char>)
    ensures
        spec_execute(
            spec_execute(m, CommandView::Insert { key, value }).0,
            CommandView::Get { key },
        ).1 == Ok::<Seq<char>, ErrorView>(value),
{
}


/// Replaying the log that a run of `set` and `rm` commands wrote rebuilds
/// the index that the run left, provided each command succeeded (a `rm` of
/// an absent key is logged too, but stops a later replay with `NotFound`)
/// and each key and value is a word of the record format.
pub proof fn lemma_replay_equivalence(m: Map<Seq<char>, Seq<char>>, cs: Seq<CommandView>)
    requires
        forall|i: int| 0 <= i < cs.len() ==> logged(#[trigger] cs[i]) && representable(cs[i]),
        all_succeed(m, cs),
    ensures
        replay(m, cs.map_values(|c: CommandView| spec_encode(c))) == Ok::<_, ErrorView>(
            apply_all(m, cs),
        ),
    decreases cs.len(),
{
    let lines = cs.map_values(|c: CommandView| spec_encode(c));
    if cs.len() > 0 {
        let init = cs.drop_last();
        assert(lines.drop_last() =~= init.map_values(|c: CommandView| spec_encode(c)));
        assert forall|i: int| 0 <= i < init.len() implies logged(#[trigger] init[i])
            && representable(init[i]) by {
            assert(init[i] == cs[i]);
        }
        lemma_replay_equivalence(m, init);
        let c = cs.last();
        assert(logged(cs[cs.len() - 1]) && representable(cs[cs.len() - 1]));
        lemma_decode_encode(c);
        assert(lines.last() == spec_encode(c));
    } else {
        assert(lines.len() == 0);
    }
}

} // verus!
