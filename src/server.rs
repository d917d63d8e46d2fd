//! One request buffer of a connection: parse it and dispatch its commands.
use vstd::prelude::*;
use crate::command::{Command, CommandView};
use crate::proto::error_reply;
use crate::redis::{dispatch, Action, ActionView, Redis, Stored};
use crate::response::{Builder, Response};
use crate::scanner::{commands, scan};

verus! {

/// The store and actions after dispatching `cmds` in order, all received at `now`.
pub open spec fn run(
    store: Map<Seq<char>, Stored>,
    dir: Seq<char>,
    db: Seq<char>,
    cmds: Seq<CommandView>,
    now: u64,
) -> (Map<Seq<char>, Stored>, Seq<ActionView>)
    decreases cmds.len(),
{
    if cmds.len() == 0 {
        (store, seq![])
    } else {
        let (s1, acts) = run(store, dir, db, cmds.drop_last(), now);
        let (s2, a) = dispatch(s1, dir, db, cmds.last(), now);
        (s2, acts.push(a))
    }
}

/// The error text sent for a buffer with no command in it.
pub open spec fn no_command_text() -> Seq<char> {
    "No supported command found"@
}

/// Serves the requests of every connection against one shared state.
pub struct Server {
    redis: Redis,
}

impl Server {
    pub closed spec fn state(&self) -> Redis {
        self.redis
    }

    pub fn new(redis: Redis) -> (r: Self)
        ensures
            r.state() == redis,
    {
        Server { redis }
    }

    /// Parses `buffer` into its commands; a buffer with no command gets the
    /// error reply instead.
    pub fn parse_request(buffer: &str) -> (r: Result<Vec<Command>, Response>)
        ensures
            commands(buffer@).len() == 0 ==> (r matches Err(e) && e@ == error_reply(no_command_text())),
            commands(buffer@).len() > 0 ==> (r matches Ok(cmds) && cmds@.map_values(|c: Command| c@)
                == commands(buffer@)),
    {
        let cmds = scan(buffer);
        if cmds.len() == 0 {
            Err(Response::error("No supported command found"))
        } else {
            Ok(cmds)
        }
    }

    /// Dispatches one command, received at `received_at`; a caller that shares
    /// the server between connections holds its lock for this call alone.
    pub fn handle(&mut self, cmd: &Command, received_at: u64) -> (r: Action)
        ensures
            (final(self).state().store(), r@) == dispatch(old(self).state().store(), old(self).state().dir(), old(self).state().db_filename(), cmd@, received_at),
            final(self).state().dir() == old(self).state().dir(),
            final(self).state().db_filename() == old(self).state().db_filename(),
    {
        self.redis.handle(cmd, received_at)
    }

    /// Parses `buffer`, received at `received_at`, and dispatches its commands
    /// in order. A buffer with no command gets an error reply.
    pub fn handle_request(&mut self, buffer: &str, received_at: u64) -> (r: Vec<Action>)
        ensures
            final(self).state().dir() == old(self).state().dir(),
            final(self).state().db_filename() == old(self).state().db_filename(),
            commands(buffer@).len() == 0 ==> final(self).state().store() == old(self).state().store()
                && r@.map_values(|a: Action| a@) == seq![ActionView::Reply(error_reply(no_command_text()))],
            commands(buffer@).len() > 0 ==> (final(self).state().store(), r@.map_values(|a: Action| a@))
                == run(old(self).state().store(), old(self).state().dir(), old(self).state().db_filename(), commands(buffer@), received_at),
    {
        let cmds = match Server::parse_request(buffer) {
            Ok(cmds) => cmds,
            Err(reply) => {
                let mut out: Vec<Action> = Vec::new();
                out.push(Action::Reply(reply));
                assert(out@.map_values(|a: Action| a@) =~= seq![ActionView::Reply(error_reply(no_command_text()))]);
                return out;
            },
        };
        let ghost cs = cmds@.map_values(|c: Command| c@);
        let ghost store0 = self.redis.store();
        let mut out: Vec<Action> = Vec::new();
        for i in 0..cmds.len()
            invariant
                cs == cmds@.map_values(|c: Command| c@),
                self.redis.dir() == old(self).state().dir(),
                self.redis.db_filename() == old(self).state().db_filename(),
                store0 == old(self).state().store(),
                (self.redis.store(), out@.map_values(|a: Action| a@)) == run(store0, self.redis.dir(), self.redis.db_filename(), cs.take(i as int), received_at),
        {
            let ghost before = out@.map_values(|a: Action| a@);
            assert(cs.take(i + 1).drop_last() =~= cs.take(i as int));
            let a = self.redis.handle(&cmds[i], received_at);
            out.push(a);
            assert(out@.map_values(|a: Action| a@) =~= before.push(a@));
        }
        assert(cs.take(cmds@.len() as int) =~= cs);
        out
    }
}

} // verus!
