use vstd::prelude::*;
use crate::wire::seq_view;

verus! {

/// A command for the shared key-value store. Keys, fields and values are bytes.
pub enum Command {
    /// Removes each key.
    Del(Vec<Vec<u8>>),
    /// Reads a plain value.
    Get(Vec<u8>),
    /// Writes a plain value with no expiry.
    Put(Vec<u8>, Vec<u8>),
    /// Writes a plain value that expires after the given number of seconds.
    SetEx(Vec<u8>, Vec<u8>, u64),
    /// Reads the given fields of a hash, in order.
    HGet(Vec<u8>, Vec<Vec<u8>>),
    /// Reads every field of a hash.
    HGetAll(Vec<u8>),
    /// Writes one field of a hash, creating the hash if needed.
    HSet(Vec<u8>, Vec<u8>, Vec<u8>),
    /// Writes several fields of a hash, in order.
    HSetMultiple(Vec<u8>, Vec<(u64, Vec<u8>)>),
    /// Removes one field of a hash.
    HDel(Vec<u8>, Vec<u8>),
    /// Adds members to a set, creating the set if needed.
    SAdd(Vec<u8>, Vec<Vec<u8>>),
    /// Asks whether a member is in a set.
    SIsMember(Vec<u8>, Vec<u8>),
    /// Makes a key expire after the given number of seconds.
    Expire(Vec<u8>, u64),
}

pub enum CommandView {
    Del(Seq<Seq<u8>>),
    Get(Seq<u8>),
    Put(Seq<u8>, Seq<u8>),
    SetEx(Seq<u8>, Seq<u8>, u64),
    HGet(Seq<u8>, Seq<Seq<u8>>),
    HGetAll(Seq<u8>),
    HSet(Seq<u8>, Seq<u8>, Seq<u8>),
    HSetMultiple(Seq<u8>, Seq<(u64, Seq<u8>)>),
    HDel(Seq<u8>, Seq<u8>),
    SAdd(Seq<u8>, Seq<Seq<u8>>),
    SIsMember(Seq<u8>, Seq<u8>),
    Expire(Seq<u8>, u64),
}

pub open spec fn pairs_view(ps: Seq<(u64, Vec<u8>)>) -> Seq<(u64, Seq<u8>)> {
    ps.map_values(|p: (u64, Vec<u8>)| (p.0, p.1@))
}

impl View for Command {
    type V = CommandView;

    open spec fn view(&self) -> CommandView {
        match self {
            Command::Del(ks) => CommandView::Del(seq_view(ks@)),
            Command::Get(k) => CommandView::Get(k@),
            Command::Put(k, v) => CommandView::Put(k@, v@),
            Command::SetEx(k, v, t) => CommandView::SetEx(k@, v@, *t),
            Command::HGet(k, fs) => CommandView::HGet(k@, seq_view(fs@)),
            Command::HGetAll(k) => CommandView::HGetAll(k@),
            Command::HSet(k, f, v) => CommandView::HSet(k@, f@, v@),
            Command::HSetMultiple(k, ps) => CommandView::HSetMultiple(k@, pairs_view(ps@)),
            Command::HDel(k, f) => CommandView::HDel(k@, f@),
            Command::SAdd(k, ms) => CommandView::SAdd(k@, seq_view(ms@)),
            Command::SIsMember(k, m) => CommandView::SIsMember(k@, m@),
            Command::Expire(k, t) => CommandView::Expire(k@, *t),
        }
    }
}

/// Commands sent together; an atomic pipeline runs as one indivisible step.
pub struct Pipeline {
    pub atomic: bool,
    pub commands: Vec<Command>,
}

impl Pipeline {
    pub open spec fn cmds(&self) -> Seq<CommandView> {
        self.commands@.map_values(|c: Command| c@)
    }

    /// An empty pipeline.
    pub fn new(atomic: bool) -> (r: Pipeline)
        ensures
            r.atomic == atomic,
            r.cmds() == Seq::<CommandView>::empty(),
    {
        let r = Pipeline { atomic, commands: Vec::new() };
        assert(r.cmds() =~= Seq::<CommandView>::empty());
        r
    }

    /// Adds a command at the end.
    pub fn add(&mut self, c: Command)
        ensures
            final(self).atomic == old(self).atomic,
            final(self).cmds() == old(self).cmds().push(c@),
    {
        self.commands.push(c);
        assert(final(self).cmds() =~= old(self).cmds().push(c@));
    }
}

/// What a key holds.
pub enum Entry {
    Text(Seq<u8>),
    Hash(Map<Seq<u8>, Seq<u8>>),
    Members(Set<Seq<u8>>),
}

/// The store's contents at one instant: entries, the instants at which
/// expiring keys lapse, and the current instant in seconds.
pub struct StoreState {
    pub entries: Map<Seq<u8>, Entry>,
    pub expires: Map<Seq<u8>, int>,
    pub now: int,
}

impl StoreState {
    /// The entry a reader sees under `k`: none once its expiry has passed.
    pub open spec fn live(self, k: Seq<u8>) -> Option<Entry> {
        if self.entries.contains_key(k) && !(self.expires.contains_key(k) && self.expires[k]
            <= self.now) {
            Some(self.entries[k])
        } else {
            None
        }
    }

    pub open spec fn hash_of(self, k: Seq<u8>) -> Map<Seq<u8>, Seq<u8>> {
        match self.live(k) {
            Some(Entry::Hash(h)) => h,
            _ => Map::empty(),
        }
    }

    pub open spec fn members_of(self, k: Seq<u8>) -> Set<Seq<u8>> {
        match self.live(k) {
            Some(Entry::Members(m)) => m,
            _ => Set::empty(),
        }
    }

    /// Whether `k` holds something other than a hash, which hash commands leave alone.
    pub open spec fn not_hash(self, k: Seq<u8>) -> bool {
        self.live(k) is Some && !(self.live(k) matches Some(Entry::Hash(_)))
    }

    pub open spec fn not_set(self, k: Seq<u8>) -> bool {
        self.live(k) is Some && !(self.live(k) matches Some(Entry::Members(_)))
    }

    pub open spec fn put(self, k: Seq<u8>, e: Entry) -> StoreState {
        StoreState { entries: self.entries.insert(k, e), expires: self.expires.remove(k), ..self }
    }

    /// Writes `e` under `k`, keeping the key's expiry if it is live.
    pub open spec fn keep(self, k: Seq<u8>, e: Entry) -> StoreState {
        if self.live(k) is Some {
            StoreState { entries: self.entries.insert(k, e), ..self }
        } else {
            self.put(k, e)
        }
    }

    pub open spec fn delete(self, k: Seq<u8>) -> StoreState {
        StoreState { entries: self.entries.remove(k), expires: self.expires.remove(k), ..self }
    }

    pub open spec fn delete_all(self, ks: Seq<Seq<u8>>) -> StoreState
        decreases ks.len(),
    {
        if ks.len() == 0 {
            self
        } else {
            self.delete(ks[0]).delete_all(ks.drop_first())
        }
    }

    pub open spec fn hset(self, k: Seq<u8>, f: Seq<u8>, v: Seq<u8>) -> StoreState {
        if self.not_hash(k) {
            self
        } else {
            self.keep(k, Entry::Hash(self.hash_of(k).insert(f, v)))
        }
    }

    pub open spec fn hset_all(self, k: Seq<u8>, ps: Seq<(Seq<u8>, Seq<u8>)>) -> StoreState
        decreases ps.len(),
    {
        if ps.len() == 0 {
            self
        } else {
            self.hset(k, ps[0].0, ps[0].1).hset_all(k, ps.drop_first())
        }
    }

    /// The store after one command.
    pub open spec fn apply(self, c: CommandView) -> StoreState {
        match c {
            CommandView::Del(ks) => self.delete_all(ks),
            CommandView::Put(k, v) => self.put(k, Entry::Text(v)),
            CommandView::SetEx(k, v, t) => StoreState {
                entries: self.entries.insert(k, Entry::Text(v)),
                expires: self.expires.insert(k, self.now + t),
                ..self
            },
            CommandView::HSet(k, f, v) => self.hset(k, f, v),
            CommandView::HSetMultiple(k, ps) => self.hset_all(
                k,
                ps.map_values(|p: (u64, Seq<u8>)| (decimal(p.0), p.1)),
            ),
            CommandView::HDel(k, f) => if self.live(k) matches Some(Entry::Hash(_)) {
                self.keep(k, Entry::Hash(self.hash_of(k).remove(f)))
            } else {
                self
            },
            CommandView::SAdd(k, ms) => if self.not_set(k) {
                self
            } else {
                self.keep(k, Entry::Members(self.members_of(k).union(ms.to_set())))
            },
            CommandView::Expire(k, t) => if self.live(k) is Some {
                StoreState { expires: self.expires.insert(k, self.now + t), ..self }
            } else {
                self
            },
            _ => self,
        }
    }

    /// The store after a sequence of commands, one after another.
    pub open spec fn run(self, cs: Seq<CommandView>) -> StoreState
        decreases cs.len(),
    {
        if cs.len() == 0 {
            self
        } else {
            self.apply(cs[0]).run(cs.drop_first())
        }
    }

    /// What a command returns on this store.
    pub open spec fn reply(self, c: CommandView) -> Reply {
        match c {
            CommandView::Get(k) => match self.live(k) {
                Some(Entry::Text(v)) => Reply::Value(Some(v)),
                _ => Reply::Value(None),
            },
            CommandView::HGet(k, fs) => Reply::Values(
                fs.map_values(
                    |f: Seq<u8>|
                        if self.hash_of(k).contains_key(f) {
                            Some(self.hash_of(k)[f])
                        } else {
                            None
                        },
                ),
            ),
            CommandView::HGetAll(k) => Reply::Fields(self.hash_of(k)),
            CommandView::SIsMember(k, m) => Reply::Flag(self.members_of(k).contains(m)),
            _ => Reply::Done,
        }
    }

    /// The store once `secs` seconds have passed.
    pub open spec fn later(self, secs: int) -> StoreState {
        StoreState { now: self.now + secs, ..self }
    }
}

/// What the store answers to a command.
pub enum Reply {
    Done,
    Value(Option<Seq<u8>>),
    Values(Seq<Option<Seq<u8>>>),
    Fields(Map<Seq<u8>, Seq<u8>>),
    Flag(bool),
}

/// The decimal digits of `n`, as the store keeps integer field names.
pub open spec fn decimal(n: u64) -> Seq<u8>
    decreases n,
{
    if n < 10 {
        seq![(48 + n) as u8]
    } else {
        decimal(n / 10).push((48 + n % 10) as u8)
    }
}

} // verus!
