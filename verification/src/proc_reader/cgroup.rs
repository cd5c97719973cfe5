use vstd::prelude::*;
use crate::text::{
    chars_of, find_with_prefix, first_with_prefix, lemma_char_vec_dv, lines, lines_of,
    split_once, split_once_chars, string_from, string_of,
};

verus! {

/// The path of one cgroup line `hierarchy:controllers:path`: the text after
/// the second `:`, or `unknown` when the line holds fewer than two.
pub open spec fn cgroup_line_path(l: Seq<char>) -> Seq<char> {
    match split_once(l, ':') {
        Some((_, rest)) => match split_once(rest, ':') {
            Some((_, path)) => path,
            None => "unknown"@,
        },
        None => "unknown"@,
    }
}

/// The primary cgroup path of a cgroup file: that of the first line that
/// starts with `0:` (the unified hierarchy), else that of the first line,
/// else `unknown`.
pub open spec fn primary_cgroup(text: Seq<char>) -> Seq<char> {
    let ls = lines(text);
    let j = first_with_prefix(ls, "0:"@);
    if j >= 0 {
        cgroup_line_path(ls[j])
    } else if ls.len() > 0 {
        cgroup_line_path(ls[0])
    } else {
        "unknown"@
    }
}

fn line_path(l: &Vec<char>) -> (s: String)
    ensures
        s@ == cgroup_line_path(l@),
{
    match split_once_chars(l, ':') {
        Some((_, rest)) => match split_once_chars(&rest, ':') {
            Some((_, path)) => string_of(&path),
            None => string_from("unknown"),
        },
        None => string_from("unknown"),
    }
}

/// The primary cgroup path from the contents of `/proc/<pid>/cgroup`
/// (`None` when the file could not be read).
pub fn read_cgroup(raw: Option<&str>) -> (r: Option<String>)
    ensures
        match raw {
            Some(text) => r matches Some(p) && p@ == primary_cgroup(text@),
            None => r.is_none(),
        },
{
    match raw {
        None => None,
        Some(text) => {
            let tv = chars_of(text);
            let ls = lines_of(&tv);
            let prefix = chars_of("0:");
            match find_with_prefix(&ls, &prefix) {
                Some(j) => {
                    proof {
                        lemma_char_vec_dv(ls@[j as int]);
                    }
                    Some(line_path(&ls[j]))
                },
                None => {
                    if ls.len() > 0 {
                        proof {
                            lemma_char_vec_dv(ls@[0]);
                        }
                        Some(line_path(&ls[0]))
                    } else {
                        Some(string_from("unknown"))
                    }
                },
            }
        },
    }
}

} // verus!
