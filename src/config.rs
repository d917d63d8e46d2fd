//! The static configuration: where the snapshot file lives.
use vstd::prelude::*;
use crate::text::{is_word, texts};

verus! {

/// The directory and file name of the snapshot.
#[derive(Debug)]
pub struct Config {
    pub dir: String,
    pub db_filename: String,
}

/// The settings after reading `args` as flag and value pairs from the left,
/// starting from `dir` and `db`: `--dir` sets the directory, `--dbfilename`
/// the file name, any other flag is ignored, and so is a flag with no value.
pub open spec fn apply_args(args: Seq<Seq<char>>, dir: Seq<char>, db: Seq<char>) -> (Seq<char>, Seq<char>)
    decreases args.len(),
{
    if args.len() < 2 {
        (dir, db)
    } else {
        let rest = args.subrange(2, args.len() as int);
        if args[0] == "--dir"@ {
            apply_args(rest, args[1], db)
        } else if args[0] == "--dbfilename"@ {
            apply_args(rest, dir, args[1])
        } else {
            apply_args(rest, dir, db)
        }
    }
}

impl Default for Config {
    fn default() -> Config {
        Config::defaults()
    }
}

impl Config {
    /// The current directory and `store.rdb`.
    pub fn defaults() -> (r: Config)
        ensures
            r.dir@ == "."@,
            r.db_filename@ == "store.rdb"@,
    {
        Config { dir: ".".to_owned(), db_filename: "store.rdb".to_owned() }
    }

    /// Reads the settings from command-line arguments, over the defaults.
    pub fn from_args(value: &[String]) -> (r: Config)
        ensures
            (r.dir@, r.db_filename@) == apply_args(texts(value@), "."@, "store.rdb"@),
    {
        let ghost all = texts(value@);
        let mut cfg = Config::defaults();
        let mut i: usize = 0;
        assert(all.subrange(0, all.len() as int) =~= all);
        while value.len() - i >= 2
            invariant
                i <= value@.len(),
                all == texts(value@),
                apply_args(all.subrange(i as int, all.len() as int), cfg.dir@, cfg.db_filename@)
                    == apply_args(all, "."@, "store.rdb"@),
            decreases value@.len() - i,
        {
            let ghost rest = all.subrange(i as int, all.len() as int);
            assert(rest.subrange(2, rest.len() as int) =~= all.subrange(i + 2, all.len() as int));
            assert(rest[0] == value@[i as int]@ && rest[1] == value@[i + 1]@);
            let cmd = &value[i];
            let val = &value[i + 1];
            if is_word(cmd, "--dir") {
                cfg.dir = val.clone();
            } else if is_word(cmd, "--dbfilename") {
                cfg.db_filename = val.clone();
            }
            i = i + 2;
        }
        cfg
    }
}

} // verus!
