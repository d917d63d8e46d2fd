//! The command dispatcher over the store, the configuration and the snapshot.
use vstd::prelude::*;
use crate::command::{Command, CommandView, ConfigCmd, ConfigKey};
use crate::config::Config;
use crate::db::{self, live_keys, live_value, Database, header_version, OpenError};
use crate::db::file::{sections_from, HEADER_LEN};
use crate::proto::{array_reply, null_reply, simple};
use crate::redis::cache::{Cache, Item};
use crate::response::{ok_text, pong_text, Builder, Response};

pub mod cache;

verus! {

/// A store entry as plain values: its text and its expiry.
pub type Stored = (Seq<char>, Option<u64>);

/// The store's entries as plain values.
pub open spec fn stored(m: Map<Seq<char>, Item<String>>) -> Map<Seq<char>, Stored> {
    m.map_values(|i: Item<String>| (i.value@, i.expires_at))
}

/// Whether a stored entry is live at `now`: it has no expiry, or one after `now`.
pub open spec fn is_live(e: Stored, now: u64) -> bool {
    !(e.1 matches Some(t) && t <= now)
}

/// The absolute expiry of a `SET` received at `now` with relative expiry `d`,
/// saturating at the largest timestamp.
pub open spec fn expiry_after(now: u64, d: Option<u64>) -> Option<u64> {
    match d {
        Some(d) => Some(if now + d > u64::MAX { u64::MAX } else { (now + d) as u64 }),
        None => None,
    }
}

/// What the dispatcher does with a command.
#[derive(Debug, PartialEq)]
pub enum Action {
    /// Send this reply.
    Reply(Response),
    /// Send nothing: the command is not one this server serves.
    Skip,
    /// The store has no live value for the key: answer from the snapshot.
    LookupSnapshot(String),
    /// List the live keys of the snapshot.
    ListSnapshotKeys,
}

pub enum ActionView {
    Reply(Seq<char>),
    Skip,
    LookupSnapshot(Seq<char>),
    ListSnapshotKeys,
}

impl View for Action {
    type V = ActionView;

    open spec fn view(&self) -> ActionView {
        match self {
            Action::Reply(r) => ActionView::Reply(r@),
            Action::Skip => ActionView::Skip,
            Action::LookupSnapshot(k) => ActionView::LookupSnapshot(k@),
            Action::ListSnapshotKeys => ActionView::ListSnapshotKeys,
        }
    }
}

/// The reply to `CONFIG GET` for a configuration with directory `dir` and
/// snapshot file name `db`.
pub open spec fn config_reply(c: ConfigCmd, dir: Seq<char>, db: Seq<char>) -> Seq<char> {
    match c {
        ConfigCmd::Get(ConfigKey::Dir) => array_reply(seq!["dir"@, dir]),
        ConfigCmd::Get(ConfigKey::DbFilename) => array_reply(seq!["dbfilename"@, db]),
    }
}

/// The store after a command received at `now`, and what is done with it.
/// `GET` removes the entry it finds expired; `SET` replaces the entry and
/// replies with the value it replaced, expired or not, or `OK`.
pub open spec fn dispatch(
    store: Map<Seq<char>, Stored>,
    dir: Seq<char>,
    db: Seq<char>,
    cmd: CommandView,
    now: u64,
) -> (Map<Seq<char>, Stored>, ActionView) {
    match cmd {
        CommandView::Ping => (store, ActionView::Reply(simple(pong_text()))),
        CommandView::Echo(m) => (store, ActionView::Reply(simple(m))),
        CommandView::Get(k) => {
            if !store.contains_key(k) {
                (store, ActionView::LookupSnapshot(k))
            } else if !is_live(store[k], now) {
                (store.remove(k), ActionView::LookupSnapshot(k))
            } else {
                (store, ActionView::Reply(simple(store[k].0)))
            }
        },
        CommandView::SetKey(k, v, d) => {
            let reply = if store.contains_key(k) {
                simple(store[k].0)
            } else {
                simple(ok_text())
            };
            (store.insert(k, (v, expiry_after(now, d))), ActionView::Reply(reply))
        },
        CommandView::Config(c) => (store, ActionView::Reply(config_reply(c, dir, db))),
        CommandView::Keys(_) => (store, ActionView::ListSnapshotKeys),
        CommandView::Unknown(_, _) => (store, ActionView::Skip),
    }
}

/// A `GET` right after a `SET` of the same key answers from the store with the
/// value set, as long as the expiry that the `SET` gave has not been reached;
/// from the expiry on the store has no value for it and the answer is left to
/// the snapshot.
pub proof fn lemma_set_then_get(
    store: Map<Seq<char>, Stored>,
    dir: Seq<char>,
    db: Seq<char>,
    k: Seq<char>,
    v: Seq<char>,
    d: Option<u64>,
    set_at: u64,
    get_at: u64,
)
    ensures
        ({
            let (s1, _) = dispatch(store, dir, db, CommandView::SetKey(k, v, d), set_at);
            let (_, a) = dispatch(s1, dir, db, CommandView::Get(k), get_at);
            &&& (d is None || (d matches Some(ms) && get_at < set_at + ms && set_at + ms <= u64::MAX))
                ==> a == ActionView::Reply(simple(v))
            &&& (d matches Some(ms) && get_at >= set_at + ms) ==> a == ActionView::LookupSnapshot(k)
        }),
{
    let (s1, _) = dispatch(store, dir, db, CommandView::SetKey(k, v, d), set_at);
    assert(s1.contains_key(k) && s1[k] == (v, expiry_after(set_at, d)));
}

/// A `SET` on a key the store holds replies with exactly the value it replaced,
/// expired or not; on a key it does not hold it replies `OK`.
pub proof fn lemma_set_reply(
    store: Map<Seq<char>, Stored>,
    dir: Seq<char>,
    db: Seq<char>,
    k: Seq<char>,
    v: Seq<char>,
    d: Option<u64>,
    now: u64,
)
    ensures
        ({
            let (s1, a) = dispatch(store, dir, db, CommandView::SetKey(k, v, d), now);
            &&& store.contains_key(k) ==> a == ActionView::Reply(simple(store[k].0))
            &&& !store.contains_key(k) ==> a == ActionView::Reply(simple(ok_text()))
            &&& s1[k].0 == v
        }),
{
}

/// `KEYS` never reads or changes the store: whatever the store holds, it leads
/// to listing the snapshot, whose reply depends on the snapshot content alone.
/// A key that was only ever `SET` is therefore listed only if the snapshot
/// holds it too.
pub proof fn lemma_keys_from_snapshot_only(
    store: Map<Seq<char>, Stored>,
    dir: Seq<char>,
    db: Seq<char>,
    k: Seq<char>,
    v: Seq<char>,
    d: Option<u64>,
    pattern: Seq<char>,
    now: u64,
)
    ensures
        ({
            let (s1, _) = dispatch(store, dir, db, CommandView::SetKey(k, v, d), now);
            let (s2, a) = dispatch(s1, dir, db, CommandView::Keys(pattern), now);
            &&& a == ActionView::ListSnapshotKeys
            &&& s2 == s1
            &&& dispatch(Map::empty(), dir, db, CommandView::Keys(pattern), now).1 == a
        }),
{
}

/// The shared server state: the store and the configuration.
pub struct Redis {
    cache: Cache<String>,
    config: Config,
}

impl Redis {
    /// The store's entries.
    pub closed spec fn store(&self) -> Map<Seq<char>, Stored> {
        stored(self.cache@)
    }

    /// The configured directory.
    pub closed spec fn dir(&self) -> Seq<char> {
        self.config.dir@
    }

    /// The configured snapshot file name.
    pub closed spec fn db_filename(&self) -> Seq<char> {
        self.config.db_filename@
    }

    /// An empty store with configuration `config`.
    pub fn new(config: Config) -> (r: Self)
        ensures
            r.store() == Map::<Seq<char>, Stored>::empty(),
            r.dir() == config.dir@,
            r.db_filename() == config.db_filename@,
    {
        let cache = Cache::new();
        proof {
            assert(stored(cache@) =~= Map::<Seq<char>, Stored>::empty());
        }
        Redis { cache, config }
    }

    /// The configuration.
    pub fn config(&self) -> (r: &Config)
        ensures
            r.dir@ == self.dir(),
            r.db_filename@ == self.db_filename(),
    {
        &self.config
    }

    /// Executes `cmd`, received at `received_at`, against the store.
    pub fn handle(&mut self, cmd: &Command, received_at: u64) -> (r: Action)
        ensures
            (final(self).store(), r@) == dispatch(old(self).store(), old(self).dir(), old(self).db_filename(), cmd@, received_at),
            final(self).dir() == old(self).dir(),
            final(self).db_filename() == old(self).db_filename(),
    {
        match cmd {
            Command::Ping => Action::Reply(Response::pong()),
            Command::Echo(message) => Action::Reply(Response::text(message.as_str())),
            Command::Get(key) => self.handle_get(key, received_at),
            Command::SetKey(key, value, delta) => {
                let timeout = match delta {
                    Some(d) => Some(received_at.saturating_add(*d)),
                    None => None,
                };
                Action::Reply(self.handle_set(key, value, timeout))
            },
            Command::Config(c) => Action::Reply(self.handle_config(c)),
            Command::Keys(_) => Action::ListSnapshotKeys,
            Command::Unknown(_, _) => Action::Skip,
        }
    }

    /// Reads `k` from the store at `now`; without a live value the answer is
    /// left to the snapshot.
    pub fn handle_get(&mut self, k: &String, now: u64) -> (r: Action)
        ensures
            (final(self).store(), r@) == dispatch(old(self).store(), old(self).dir(), old(self).db_filename(), CommandView::Get(k@), now),
            final(self).dir() == old(self).dir(),
            final(self).db_filename() == old(self).db_filename(),
    {
        let ghost before = self.cache@;
        proof {
            if before.contains_key(k@) {
                assert(stored(before)[k@] == (before[k@].value@, before[k@].expires_at));
            }
        }
        match self.cache.value(k.as_str(), now) {
            Ok(cached) => Action::Reply(Response::text(cached.as_str())),
            Err(_) => {
                proof {
                    if before.contains_key(k@) {
                        assert(stored(before.remove(k@)) =~= stored(before).remove(k@));
                    }
                }
                Action::LookupSnapshot(k.clone())
            },
        }
    }

    /// Stores `value` under `key` with expiry `timeout`, replying with the
    /// value it replaced, or `OK`.
    pub fn handle_set(&mut self, key: &String, value: &String, timeout: Option<u64>) -> (r: Response)
        ensures
            final(self).store() == old(self).store().insert(key@, (value@, timeout)),
            r@ == (if old(self).store().contains_key(key@) {
                simple(old(self).store()[key@].0)
            } else {
                simple(ok_text())
            }),
            final(self).dir() == old(self).dir(),
            final(self).db_filename() == old(self).db_filename(),
    {
        let ghost before = self.cache@;
        let previous = self.cache.write(key.clone(), value.clone(), timeout);
        proof {
            assert(stored(self.cache@) =~= stored(before).insert(key@, (value@, timeout)));
        }
        match previous {
            Some(p) => Response::text(p.as_str()),
            None => Response::ok(),
        }
    }

    /// Lists the live keys at `now` of the snapshot content `data`, or reports
    /// why the content cannot be opened.
    pub fn handle_keys(data: Vec<u8>, now: u64) -> (r: Result<Response, OpenError>)
        ensures
            match header_version(data@) {
                Ok(_) => r matches Ok(resp) && resp@ == array_reply(
                    live_keys(sections_from(data@, HEADER_LEN as int), now),
                ),
                Err(e) => r == Err::<Response, OpenError>(e),
            },
    {
        let file = match db::open_at(data) {
            Ok(f) => f,
            Err(e) => return Err(e),
        };
        let keys = file.all_keys(now);
        let ghost want = keys@.map_values(|s: String| s@);
        let mut items: Vec<&str> = Vec::new();
        for i in 0..keys.len()
            invariant
                want == keys@.map_values(|s: String| s@),
                items@.len() == i,
                forall|j: int| 0 <= j < i ==> #[trigger] items@[j]@ == want[j],
        {
            items.push(keys[i].as_str());
        }
        assert(items@.map_values(|s: &str| s@) =~= want);
        Ok(Response::array(items.as_slice()))
    }

    /// Answers a `GET` from the snapshot content `data` at `now`: the value of
    /// the first live entry with key `key`, or null; or reports why the content
    /// cannot be opened.
    pub fn handle_lookup(data: Vec<u8>, key: &str, now: u64) -> (r: Result<Response, OpenError>)
        ensures
            match header_version(data@) {
                Ok(_) => r matches Ok(resp) && resp@ == match live_value(
                    sections_from(data@, HEADER_LEN as int),
                    key@,
                    now,
                ) {
                    Some(v) => simple(v),
                    None => null_reply(),
                },
                Err(e) => r == Err::<Response, OpenError>(e),
            },
    {
        let file = match db::open_at(data) {
            Ok(f) => f,
            Err(e) => return Err(e),
        };
        match file.find(key, now) {
            Some(v) => Ok(Response::text(v.as_str())),
            None => Ok(Response::null()),
        }
    }

    /// Answers `CONFIG GET` with the key and its configured value.
    pub fn handle_config(&self, cmd: &ConfigCmd) -> (r: Response)
        ensures
            r@ == config_reply(*cmd, self.dir(), self.db_filename()),
    {
        match cmd {
            ConfigCmd::Get(ConfigKey::Dir) => {
                let items = vec!["dir", self.config.dir.as_str()];
                assert(items@.map_values(|s: &str| s@) =~= seq!["dir"@, self.dir()]);
                Response::array(items.as_slice())
            },
            ConfigCmd::Get(ConfigKey::DbFilename) => {
                let items = vec!["dbfilename", self.config.db_filename.as_str()];
                assert(items@.map_values(|s: &str| s@) =~= seq!["dbfilename"@, self.db_filename()]);
                Response::array(items.as_slice())
            },
        }
    }
}

} // verus!
