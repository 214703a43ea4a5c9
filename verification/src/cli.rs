use vstd::prelude::*;

use crate::text::{string_from_chars, sub_vec, to_chars};

verus! {

/// The command line of the tool.
pub struct Cli {
    pub command: Commands,
}

/// The subcommands.
pub enum Commands {
    /// Scan the vault and build or refresh the cache.
    Build { vault: String, db: String, force: bool },
    /// Search and filter the cached papers.
    Filter {
        title: Option<String>,
        author: Option<String>,
        year: Option<i32>,
        year_from: Option<i32>,
        year_to: Option<i32>,
        keyword: Option<String>,
        field: Option<String>,
        venue: Option<String>,
        status: Option<String>,
        limit: usize,
        format: OutputFormat,
        db: String,
    },
    /// Show statistics of the cache.
    Stats { db: String },
}

/// The output formats of `filter`.
pub enum OutputFormat {
    Table,
    Json,
    Xml,
    Paths,
}

/// `PathBuf::push` on Unix: an absolute `rest` replaces `base`; otherwise a
/// separator is put between them when `base` does not already end in one.
pub open spec fn path_join(base: Seq<char>, rest: Seq<char>) -> Seq<char> {
    if rest.len() > 0 && rest[0] == '/' {
        rest
    } else if base.len() > 0 && base.last() != '/' {
        base + seq!['/'] + rest
    } else {
        base + rest
    }
}

/// A path in which `~`, alone or as the first component (`~/...`), stands
/// for the home directory, when one is known.
pub open spec fn expand_tilde_spec(path: Seq<char>, home: Option<Seq<char>>) -> Seq<char> {
    if path == seq!['~'] && home is Some {
        home.unwrap()
    } else if path.len() >= 2 && path[0] == '~' && path[1] == '/' && home is Some {
        path_join(home.unwrap(), path.skip(2))
    } else {
        path
    }
}

/// Expands `~` and a leading `~/` to the home directory `home` (see
/// [`expand_tilde_spec`]).
pub fn expand_tilde(path: &str, home: Option<&str>) -> (r: String)
    ensures
        r@ == expand_tilde_spec(path@, match home {
            Some(h) => Some(h@),
            None => None,
        }),
{
    let p = to_chars(path);
    if p.len() == 1 && p[0] == '~' {
        if let Some(h) = home {
            assert(path@ =~= seq!['~']);
            return String::from_str(h);
        }
    }
    if p.len() >= 2 && p[0] == '~' && p[1] == '/' {
        if let Some(h) = home {
            let rest = sub_vec(&p, 2, p.len());
            assert(rest@ =~= path@.skip(2));
            let rest_s = string_from_chars(rest.as_slice());
            if rest.len() > 0 && rest[0] == '/' {
                return rest_s;
            }
            let hc = to_chars(h);
            let mut r = String::from_str(h);
            if hc.len() > 0 && hc[hc.len() - 1] != '/' {
                r.append("/");
                proof {
                    reveal_strlit("/");
                }
            }
            r.append(rest_s.as_str());
            return r;
        }
    }
    String::from_str(path)
}


/// A path that does not start with `~` is left as it is, and a path is
/// left as it is when no home directory is known.
pub proof fn law_paths_without_tilde_stay(path: Seq<char>, home: Option<Seq<char>>)
    requires
        path.len() == 0 || path[0] != '~' || home is None,
    ensures
        expand_tilde_spec(path, home) == path,
{
}

/// `~/rest` under a home directory that does not end in `/`, with a relative
/// `rest`, is the home directory, `/`, and `rest`.
pub proof fn law_tilde_is_home(home: Seq<char>, rest: Seq<char>)
    requires
        home.len() > 0,
        home.last() != '/',
        rest.len() == 0 || rest[0] != '/',
    ensures
        expand_tilde_spec(seq!['~', '/'] + rest, Some(home)) == home + seq!['/'] + rest,
        expand_tilde_spec(seq!['~'], Some(home)) == home,
{
    let p = seq!['~', '/'] + rest;
    assert(p.skip(2) =~= rest);
    assert(p != seq!['~']) by {
        assert(p.len() != 1);
    }
}

} // verus!
