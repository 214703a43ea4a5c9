use vstd::prelude::*;

use crate::parser::{file_name_range, file_name_spec, last_dot};
use crate::text::{eq_chars, sub_vec, to_chars};

verus! {

/// The directories of a vault that a scan does not enter.
pub open spec fn is_excluded_dir_spec(name: Seq<char>) -> bool {
    name == ".obsidian"@ || name == ".git"@ || name == "_templates"@ || name == ".trash"@
}

/// Whether a scan leaves the directory `name` out (`.obsidian`, `.git`,
/// `_templates` or `.trash`).
pub fn is_excluded_dir(name: &str) -> (b: bool)
    ensures
        b == is_excluded_dir_spec(name@),
{
    let n = to_chars(name);
    eq_chars(&n, &to_chars(".obsidian")) || eq_chars(&n, &to_chars(".git")) || eq_chars(
        &n,
        &to_chars("_templates"),
    ) || eq_chars(&n, &to_chars(".trash"))
}

/// `Path::extension` on a Unix path: what follows the last dot of the file
/// name, unless that dot is the name's first character.
pub open spec fn extension_spec(p: Seq<char>) -> Option<Seq<char>> {
    match file_name_spec(p) {
        None => None,
        Some(n) => match last_dot(n, n.len() as int) {
            None => None,
            Some(i) => if i == 0 {
                None
            } else {
                Some(n.subrange(i + 1, n.len() as int))
            },
        },
    }
}

/// Whether `path` names a Markdown note: its extension is `md`.
pub fn is_markdown(path: &str) -> (b: bool)
    ensures
        b == (extension_spec(path@) == Some("md"@)),
{
    let p = to_chars(path);
    match file_name_range(&p) {
        None => false,
        Some((a, b)) => {
            let name = sub_vec(&p, a, b);
            let mut j = name.len();
            while j > 0 && name[j - 1] != '.'
                invariant
                    j <= name.len(),
                    last_dot(name@, j as int) == last_dot(name@, name.len() as int),
                decreases j,
            {
                j = j - 1;
            }
            if j <= 1 {
                false
            } else {
                let ext = sub_vec(&name, j, name.len());
                eq_chars(&ext, &to_chars("md"))
            }
        },
    }
}

} // verus!
