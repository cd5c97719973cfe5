use vstd::prelude::*;
use crate::text::{
    chars_of, has_prefix_str, lemma_char_vec_dv, parse_uint, parse_unsigned, skip_chars,
    split_ws, starts_with, trim_end, trim_end_chars, ws_fields,
};
use crate::proc_reader::limits::opt_u64;

verus! {

/// One argument of the syscall file: `0x` and hexadecimal digits, else decimal.
pub open spec fn syscall_arg(a: Seq<char>) -> Option<nat> {
    let hex = if starts_with(a, "0x"@) {
        parse_uint(a.skip(2), 16, u64::MAX as nat)
    } else {
        None
    };
    if hex.is_some() {
        hex
    } else {
        parse_uint(a, 10, u64::MAX as nat)
    }
}

/// Number of argument columns read: at most six, after the syscall number.
pub open spec fn arg_count(f: Seq<Seq<char>>) -> int {
    if f.len() - 1 < 6 {
        f.len() - 1
    } else {
        6
    }
}

/// `/proc/<pid>/syscall`: "number arg1 .. arg6". The number and the six
/// arguments (missing ones 0); `None` when the number, or one of the first six
/// arguments present, does not parse.
pub open spec fn syscall_of(text: Seq<char>) -> Option<(nat, Seq<nat>)> {
    let f = ws_fields(trim_end(text));
    if f.len() == 0 {
        None
    } else {
        match parse_uint(f[0], 10, u64::MAX as nat) {
            None => None,
            Some(num) => if forall|j: int| 1 <= j <= arg_count(f) ==> (#[trigger] syscall_arg(f[j])).is_some() {
                Some(
                    (
                        num,
                        Seq::new(
                            6,
                            |i: int|
                                if i < arg_count(f) {
                                    syscall_arg(f[i + 1]).unwrap()
                                } else {
                                    0
                                },
                        ),
                    ),
                )
            } else {
                None
            },
        }
    }
}

fn arg_of(a: &Vec<char>) -> (r: Option<u64>)
    ensures
        opt_u64(r) == syscall_arg(a@),
{
    proof {
        reveal_strlit("0x");
    }
    if has_prefix_str(a, "0x") {
        let rest = skip_chars(a, 2);
        match parse_unsigned(&rest, 16, u64::MAX) {
            Some(v) => {
                return Some(v);
            },
            None => {},
        }
    }
    parse_unsigned(a, 10, u64::MAX)
}

/// The current syscall from the contents of `/proc/<pid>/syscall`: number and arguments.
pub fn read_syscall(raw: Option<&str>) -> (r: Option<(u64, [u64; 6])>)
    ensures
        match raw {
            None => r.is_none(),
            Some(text) => match r {
                None => syscall_of(text@).is_none(),
                Some((num, args)) => syscall_of(text@) matches Some((n, a)) && n == num && a
                    == args@.map_values(|x: u64| x as nat),
            },
        },
{
    let text = match raw {
        None => {
            return None;
        },
        Some(t) => t,
    };
    let tv = chars_of(text);
    let t = trim_end_chars(&tv);
    let f = split_ws(&t);
    let ghost fd = f.deep_view();
    if f.len() == 0 {
        return None;
    }
    proof {
        lemma_char_vec_dv(f@[0]);
    }
    assert(fd[0] == f@[0]@);
    assert(fd == ws_fields(trim_end(text@)));
    let num = match parse_unsigned(&f[0], 10, u64::MAX) {
        Some(n) => n,
        None => {
            assert(syscall_of(text@).is_none());
            return None;
        },
    };
    let count: usize = if f.len() - 1 < 6 {
        f.len() - 1
    } else {
        6
    };
    let mut vals: Vec<u64> = Vec::new();
    let mut i: usize = 0;
    while i < count
        invariant
            fd == f.deep_view(),
            fd == ws_fields(trim_end(text@)),
            parse_uint(fd[0], 10, u64::MAX as nat) == Some(num as nat),
            raw == Some(text),
            count == arg_count(fd),
            count < f.len(),
            i <= count,
            vals.len() == i,
            forall|j: int| 1 <= j <= i ==> (#[trigger] syscall_arg(fd[j])).is_some(),
            forall|j: int| 0 <= j < i ==> vals@[j] as nat == syscall_arg(fd[j + 1]).unwrap(),
        decreases count - i,
    {
        proof {
            lemma_char_vec_dv(f@[i + 1]);
        }
        match arg_of(&f[i + 1]) {
            Some(v) => {
                vals.push(v);
            },
            None => {
                assert(!(forall|j: int| 1 <= j <= arg_count(fd) ==> (#[trigger] syscall_arg(fd[j])).is_some())) by {
                    assert(syscall_arg(fd[i + 1]).is_none());
                }
                return None;
            },
        }
        i = i + 1;
    }
    while vals.len() < 6
        invariant
            count <= vals.len() <= 6,
            forall|j: int| 0 <= j < count ==> vals@[j] as nat == syscall_arg(fd[j + 1]).unwrap(),
            forall|j: int| count <= j < vals.len() ==> vals@[j] == 0,
        decreases 6 - vals.len(),
    {
        vals.push(0);
    }
    let args: [u64; 6] = [vals[0], vals[1], vals[2], vals[3], vals[4], vals[5]];
    assert(args@.map_values(|x: u64| x as nat) =~= Seq::new(
        6,
        |k: int|
            if k < arg_count(fd) {
                syscall_arg(fd[k + 1]).unwrap()
            } else {
                0
            },
    ));
    Some((num, args))
}

} // verus!
