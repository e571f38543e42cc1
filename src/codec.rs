//! The record format: one command per line, as space-separated words
//! (`get <key>`, `set <key> <value>`, `rm <key>`).
use crate::error::{ErrorView, KvStoreError};
use vstd::prelude::*;

verus! {

/// An operation on the store.
#[derive(Debug)]
pub enum Command {
    /// Read the value of a key.
    Get { key: String },
    /// Bind a key to a value.
    Insert { key: String, value: String },
    /// Remove a key.
    Rm { key: String },
}

/// The mathematical value of a `Command`.
pub enum CommandView {
    Get { key: Seq<char> },
    Insert { key: Seq<char>, value: Seq<char> },
    Rm { key: Seq<char> },
}

impl View for Command {
    type V = CommandView;

    open spec fn view(&self) -> CommandView {
        match self {
            Command::Get { key } => CommandView::Get { key: key@ },
            Command::Insert { key, value } => CommandView::Insert { key: key@, value: value@ },
            Command::Rm { key } => CommandView::Rm { key: key@ },
        }
    }
}

impl PartialEq for Command {
    fn eq(&self, other: &Command) -> (r: bool) {
        match (self, other) {
            (Command::Get { key: k1 }, Command::Get { key: k2 }) => k1.eq(k2),
            (Command::Insert { key: k1, value: v1 }, Command::Insert { key: k2, value: v2 }) => {
                let same_key = k1.eq(k2);
                let same_value = v1.eq(v2);
                same_key && same_value
            },
            (Command::Rm { key: k1 }, Command::Rm { key: k2 }) => k1.eq(k2),
            _ => false,
        }
    }
}

impl vstd::std_specs::cmp::PartialEqSpecImpl for Command {
    open spec fn obeys_eq_spec() -> bool {
        true
    }

    open spec fn eq_spec(&self, other: &Command) -> bool {
        self@ == other@
    }
}

/// Unicode's White_Space characters, which separate the words of a record.
pub open spec fn is_ws(c: char) -> bool {
    let n = c as u32;
    (0x9 <= n && n <= 0xd) || n == 0x20 || n == 0x85 || n == 0xa0 || n == 0x1680 || (0x2000 <= n
        && n <= 0x200a) || n == 0x2028 || n == 0x2029 || n == 0x202f || n == 0x205f || n == 0x3000
}

/// A word of a record: not empty, and free of whitespace.
pub open spec fn is_word(s: Seq<char>) -> bool {
    s.len() > 0 && forall|i: int| 0 <= i < s.len() ==> !is_ws(#[trigger] s[i])
}

/// A command that the record format can carry: each of its strings is a word.
pub open spec fn representable(c: CommandView) -> bool {
    match c {
        CommandView::Get { key } => is_word(key),
        CommandView::Insert { key, value } => is_word(key) && is_word(value),
        CommandView::Rm { key } => is_word(key),
    }
}

pub open spec fn get_word() -> Seq<char> {
    seq!['g', 'e', 't']
}

pub open spec fn set_word() -> Seq<char> {
    seq!['s', 'e', 't']
}

pub open spec fn rm_word() -> Seq<char> {
    seq!['r', 'm']
}

/// Reading one more character: whitespace closes the word in progress (if
/// any); any other character extends it.
pub open spec fn scan_step(st: (Seq<Seq<char>>, Seq<char>), c: char) -> (Seq<Seq<char>>, Seq<char>) {
    if is_ws(c) {
        if st.1.len() > 0 {
            (st.0.push(st.1), Seq::empty())
        } else {
            st
        }
    } else {
        (st.0, st.1.push(c))
    }
}

/// The words completed so far and the word in progress, after reading `s`.
pub open spec fn scan(s: Seq<char>) -> (Seq<Seq<char>>, Seq<char>)
    decreases s.len(),
{
    if s.len() == 0 {
        (Seq::empty(), Seq::empty())
    } else {
        scan_step(scan(s.drop_last()), s.last())
    }
}

/// The maximal runs of non-whitespace characters of `s`, in order.
pub open spec fn tokens(s: Seq<char>) -> Seq<Seq<char>> {
    let st = scan(s);
    if st.1.len() > 0 {
        st.0.push(st.1)
    } else {
        st.0
    }
}

/// The text of the record of a command.
pub open spec fn spec_encode(c: CommandView) -> Seq<char> {
    match c {
        CommandView::Get { key } => get_word() + seq![' '] + key,
        CommandView::Insert { key, value } => set_word() + seq![' '] + key + seq![' '] + value,
        CommandView::Rm { key } => rm_word() + seq![' '] + key,
    }
}

/// What reading a record yields: a command, or the first thing missing.
/// Words after those a command needs are ignored.
pub open spec fn spec_decode(s: Seq<char>) -> Result<CommandView, ErrorView> {
    let t = tokens(s);
    if t.len() == 0 {
        Err(ErrorView::MissingCommand)
    } else if t[0] == get_word() {
        if t.len() < 2 {
            Err(ErrorView::MissingKey(t[0]))
        } else {
            Ok(CommandView::Get { key: t[1] })
        }
    } else if t[0] == set_word() {
        if t.len() < 2 {
            Err(ErrorView::MissingKey(t[0]))
        } else if t.len() < 3 {
            Err(ErrorView::MissingValue(t[1]))
        } else {
            Ok(CommandView::Insert { key: t[1], value: t[2] })
        }
    } else if t[0] == rm_word() {
        if t.len() < 2 {
            Err(ErrorView::MissingKey(t[0]))
        } else {
            Ok(CommandView::Rm { key: t[1] })
        }
    } else {
        Err(ErrorView::InvalidCommand(t[0]))
    }
}

/// Whether `c` is one of the characters that separate words.
pub fn is_whitespace(c: char) -> (r: bool)
    ensures
        r == is_ws(c),
{
    let n = c as u32;
    (0x9 <= n && n <= 0xd) || n == 0x20 || n == 0x85 || n == 0xa0 || n == 0x1680 || (0x2000 <= n
        && n <= 0x200a) || n == 0x2028 || n == 0x2029 || n == 0x202f || n == 0x205f || n == 0x3000
}

/// Splits a line into its words.
pub fn split_words(line: &str) -> (r: Vec<String>)
    ensures
        r@.map_values(|w: String| w@) == tokens(line@),
{
    let n = line.unicode_len();
    let mut words: Vec<String> = Vec::new();
    let mut start: usize = 0;
    let mut i: usize = 0;
    while i < n
        invariant
            n == line@.len(),
            start <= i <= n,
            scan(line@.subrange(0, i as int)) == (
                words@.map_values(|w: String| w@),
                line@.subrange(start as int, i as int),
            ),
        decreases n - i,
    {
        let c = line.get_char(i);
        proof {
            assert(line@.subrange(0, i + 1).drop_last() =~= line@.subrange(0, i as int));
        }
        if is_whitespace(c) {
            if start < i {
                let w = String::from_str(line.substring_char(start, i));
                let ghost before = words@;
                words.push(w);
                proof {
                    assert(words@.map_values(|w: String| w@) =~= before.map_values(
                        |w: String| w@,
                    ).push(w@));
                }
            }
            start = i + 1;
        } else {
            proof {
                assert(line@.subrange(start as int, i + 1) =~= line@.subrange(
                    start as int,
                    i as int,
                ).push(c));
            }
        }
        i = i + 1;
        proof {
            assert(line@.subrange(start as int, i as int).len() == 0 ==> line@.subrange(
                start as int,
                i as int,
            ) =~= Seq::<char>::empty());
        }
    }
    if start < n {
        let w = String::from_str(line.substring_char(start, n));
        let ghost before = words@;
        words.push(w);
        proof {
            assert(words@.map_values(|w: String| w@) =~= before.map_values(|w: String| w@).push(
                w@,
            ));
        }
    }
    proof {
        assert(line@.subrange(0, n as int) =~= line@);
    }
    words
}


/// The command, or the error, that a decoding result carries, as views.
pub open spec fn decoded_view(r: Result<Command, KvStoreError>) -> Result<CommandView, ErrorView> {
    match r {
        Ok(c) => Ok(c@),
        Err(e) => Err(e@),
    }
}

/// Whether two strings hold the same characters.
pub fn same_text(a: &str, b: &str) -> (r: bool)
    ensures
        r == (a@ == b@),
{
    let n = a.unicode_len();
    if n != b.unicode_len() {
        return false;
    }
    let mut i: usize = 0;
    while i < n
        invariant
            n == a@.len() == b@.len(),
            i <= n,
            forall|j: int| 0 <= j < i ==> a@[j] == b@[j],
        decreases n - i,
    {
        if a.get_char(i) != b.get_char(i) {
            return false;
        }
        i = i + 1;
    }
    proof {
        assert(a@ =~= b@);
    }
    true
}

/// The record of a command: its word, then its key, then its value for
/// `set`, separated by single spaces.
pub fn encode(cmd: &Command) -> (r: String)
    ensures
        r@ == spec_encode(cmd@),
{
    proof {
        reveal_strlit("get ");
        reveal_strlit("set ");
        reveal_strlit("rm ");
        reveal_strlit(" ");
    }
    match cmd {
        Command::Get { key } => {
            let mut s = String::from_str("get ");
            s.append(key.as_str());
            proof {
                assert(s@ =~= spec_encode(cmd@));
            }
            s
        },
        Command::Insert { key, value } => {
            let mut s = String::from_str("set ");
            s.append(key.as_str());
            s.append(" ");
            s.append(value.as_str());
            proof {
                assert(s@ =~= spec_encode(cmd@));
            }
            s
        },
        Command::Rm { key } => {
            let mut s = String::from_str("rm ");
            s.append(key.as_str());
            proof {
                assert(s@ =~= spec_encode(cmd@));
            }
            s
        },
    }
}

/// Reads a record back into a command. Zero words give `MissingCommand`;
/// a first word other than `get`, `set` or `rm` gives `InvalidCommand`; a
/// command without its key gives `MissingKey`, a `set` without its value
/// `MissingValue`. Extra words at the end are ignored.
pub fn decode(line: &str) -> (r: Result<Command, KvStoreError>)
    ensures
        decoded_view(r) == spec_decode(line@),
{
    let words = split_words(line);
    let ghost t = tokens(line@);
    proof {
        reveal_strlit("get");
        reveal_strlit("set");
        reveal_strlit("rm");
        assert("get"@ =~= get_word());
        assert("set"@ =~= set_word());
        assert("rm"@ =~= rm_word());
        assert(words@.len() == t.len());
        assert(forall|i: int| 0 <= i < t.len() ==> #[trigger] t[i] == words@[i]@);
    }
    if words.len() == 0 {
        return Err(KvStoreError::MissingCommand);
    }
    let first = &words[0];
    if same_text(first.as_str(), "get") {
        if words.len() < 2 {
            Err(KvStoreError::MissingKey(first.clone()))
        } else {
            Ok(Command::Get { key: words[1].clone() })
        }
    } else if same_text(first.as_str(), "set") {
        if words.len() < 2 {
            Err(KvStoreError::MissingKey(first.clone()))
        } else if words.len() < 3 {
            Err(KvStoreError::MissingValue(words[1].clone()))
        } else {
            Ok(Command::Insert { key: words[1].clone(), value: words[2].clone() })
        }
    } else if same_text(first.as_str(), "rm") {
        if words.len() < 2 {
            Err(KvStoreError::MissingKey(first.clone()))
        } else {
            Ok(Command::Rm { key: words[1].clone() })
        }
    } else {
        Err(KvStoreError::InvalidCommand(first.clone()))
    }
}

/// Reading a word after `a` extends the word in progress by it and closes
/// none.
proof fn lemma_scan_word(a: Seq<char>, w: Seq<char>)
    requires
        forall|i: int| 0 <= i < w.len() ==> !is_ws(#[trigger] w[i]),
    ensures
        scan(a + w) == (scan(a).0, scan(a).1 + w),
    decreases w.len(),
{
    if w.len() == 0 {
        assert(a + w =~= a);
        assert(scan(a).1 + w =~= scan(a).1);
    } else {
        let v = w.drop_last();
        assert((a + w).drop_last() =~= a + v);
        lemma_scan_word(a, v);
        assert(!is_ws(w[w.len() - 1]));
        assert((scan(a).1 + v).push(w.last()) =~= scan(a).1 + w);
    }
}

/// Reading a space closes the word in progress.
proof fn lemma_scan_space(a: Seq<char>)
    ensures
        scan(a + seq![' ']) == scan_step(scan(a), ' '),
{
    assert((a + seq![' ']).drop_last() =~= a);
    assert((a + seq![' ']).last() == ' ');
}

/// A line that starts with a word has that word in progress after it.
proof fn lemma_tokens_of_word(w: Seq<char>)
    requires
        is_word(w),
    ensures
        scan(w) == (Seq::<Seq<char>>::empty(), w),
{
    lemma_scan_word(Seq::empty(), w);
    assert(Seq::<char>::empty() + w =~= w);
}

/// Decoding the record of a command that the format can carry gives the
/// command back.
pub proof fn lemma_decode_encode(c: CommandView)
    requires
        representable(c),
    ensures
        spec_decode(spec_encode(c)) == Ok::<CommandView, ErrorView>(c),
{
    assert(is_word(get_word()));
    assert(is_word(set_word()));
    assert(is_word(rm_word()));
    assert(get_word()[0] != set_word()[0]);
    assert(get_word() != rm_word());
    assert(set_word() != rm_word());
    let (word, key) = match c {
        CommandView::Get { key } => (get_word(), key),
        CommandView::Insert { key, value } => (set_word(), key),
        CommandView::Rm { key } => (rm_word(), key),
    };
    lemma_tokens_of_word(word);
    let s1 = word + seq![' '];
    lemma_scan_space(word);
    assert(scan(s1) == (seq![word], Seq::<char>::empty()));
    let s2 = s1 + key;
    lemma_scan_word(s1, key);
    assert(Seq::<char>::empty() + key =~= key);
    assert(scan(s2) == (seq![word], key));
    match c {
        CommandView::Insert { key, value } => {
            let s3 = s2 + seq![' '];
            lemma_scan_space(s2);
            assert(seq![word].push(key) =~= seq![word, key]);
            assert(scan(s3) == (seq![word, key], Seq::<char>::empty()));
            lemma_scan_word(s3, value);
            assert(Seq::<char>::empty() + value =~= value);
            assert(seq![word, key].push(value) =~= seq![word, key, value]);
            assert(tokens(spec_encode(c)) == seq![word, key, value]);
        },
        _ => {
            assert(seq![word].push(key) =~= seq![word, key]);
            assert(tokens(spec_encode(c)) == seq![word, key]);
        },
    }
}

} // verus!
