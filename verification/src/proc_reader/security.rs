use vstd::prelude::*;
use crate::text::{chars_of, string_of, trim, trim_chars};

verus! {

/// The security label (AppArmor/SELinux/LSM) of `/proc/<pid>/attr/current`:
/// its text with white space trimmed, `None` when that is empty.
pub open spec fn label_of(text: Seq<char>) -> Option<Seq<char>> {
    if trim(text).len() == 0 {
        None
    } else {
        Some(trim(text))
    }
}

/// The security label from the contents of `/proc/<pid>/attr/current`
/// (`None` when the file could not be read, or is empty).
pub fn read_label(raw: Option<&str>) -> (r: Option<String>)
    ensures
        match raw {
            Some(text) => match r {
                Some(l) => label_of(text@) == Some(l@),
                None => label_of(text@).is_none(),
            },
            None => r.is_none(),
        },
{
    match raw {
        None => None,
        Some(text) => {
            let tv = chars_of(text);
            let t = trim_chars(&tv);
            if t.len() == 0 {
                None
            } else {
                Some(string_of(&t))
            }
        },
    }
}

} // verus!
