//! The menu of signals that the kill panel offers.

use vstd::prelude::*;

verus! {

/// `(name, number)` of the signals offered, in menu order.
pub open spec fn signal_menu_spec() -> Seq<(Seq<char>, int)> {
    seq![
        ("SIGTERM"@, 15),
        ("SIGKILL"@, 9),
        ("SIGSTOP"@, 19),
        ("SIGCONT"@, 18),
        ("SIGHUP"@, 1),
        ("SIGUSR1"@, 10),
        ("SIGUSR2"@, 12),
    ]
}

/// The description of each menu entry, in menu order.
pub open spec fn signal_menu_descriptions() -> Seq<Seq<char>> {
    seq![
        "asks the process to exit cleanly (can be caught/handled)"@,
        "forces immediate termination; cannot be caught or ignored"@,
        "pauses (stops) the process"@,
        "resumes a stopped process"@,
        "reloads configuration or reopens logs (convention)"@,
        "user-defined signal 1 (semantics are application-specific)"@,
        "user-defined signal 2 (semantics are application-specific)"@,
    ]
}

/// The menu of commonly used signals: `(name, number, description)`; the
/// order is the order in which menus show them.
pub fn signal_menu() -> (m: Vec<(&'static str, i32, &'static str)>)
    ensures
        m@.map_values(|e: (&'static str, i32, &'static str)| (e.0@, e.1 as int)) == signal_menu_spec(),
        m@.map_values(|e: (&'static str, i32, &'static str)| e.2@) == signal_menu_descriptions(),
{
    let mut m: Vec<(&'static str, i32, &'static str)> = Vec::new();
    m.push(("SIGTERM", 15, "asks the process to exit cleanly (can be caught/handled)"));
    m.push(("SIGKILL", 9, "forces immediate termination; cannot be caught or ignored"));
    m.push(("SIGSTOP", 19, "pauses (stops) the process"));
    m.push(("SIGCONT", 18, "resumes a stopped process"));
    m.push(("SIGHUP", 1, "reloads configuration or reopens logs (convention)"));
    m.push(("SIGUSR1", 10, "user-defined signal 1 (semantics are application-specific)"));
    m.push(("SIGUSR2", 12, "user-defined signal 2 (semantics are application-specific)"));
    assert(m@.map_values(|e: (&'static str, i32, &'static str)| (e.0@, e.1 as int)) =~= signal_menu_spec());
    m
}

/// Name of the first menu entry with number `num`, or `UNKNOWN`.
pub open spec fn signal_name_of(num: int) -> Seq<char> {
    if num == 15 {
        "SIGTERM"@
    } else if num == 9 {
        "SIGKILL"@
    } else if num == 19 {
        "SIGSTOP"@
    } else if num == 18 {
        "SIGCONT"@
    } else if num == 1 {
        "SIGHUP"@
    } else if num == 10 {
        "SIGUSR1"@
    } else if num == 12 {
        "SIGUSR2"@
    } else {
        "UNKNOWN"@
    }
}

proof fn lemma_menu_entries()
    ensures
        signal_menu_spec().len() == 7,
        signal_menu_spec()[0] == ("SIGTERM"@, 15int),
        signal_menu_spec()[1] == ("SIGKILL"@, 9int),
        signal_menu_spec()[2] == ("SIGSTOP"@, 19int),
        signal_menu_spec()[3] == ("SIGCONT"@, 18int),
        signal_menu_spec()[4] == ("SIGHUP"@, 1int),
        signal_menu_spec()[5] == ("SIGUSR1"@, 10int),
        signal_menu_spec()[6] == ("SIGUSR2"@, 12int),
{
}

/// Best-effort name lookup for a numeric signal, through the menu.
pub fn signal_name(num: i32) -> (r: &'static str)
    ensures
        r@ == signal_name_of(num as int),
{
    let menu = signal_menu();
    let ghost spec = signal_menu_spec();
    proof {
        lemma_menu_entries();
    }
    let mut i: usize = 0;
    while i < menu.len()
        invariant
            i <= menu.len(),
            menu@.map_values(|e: (&'static str, i32, &'static str)| (e.0@, e.1 as int)) == spec,
            spec == signal_menu_spec(),
            spec.len() == 7,
            spec[0] == ("SIGTERM"@, 15int),
            spec[1] == ("SIGKILL"@, 9int),
            spec[2] == ("SIGSTOP"@, 19int),
            spec[3] == ("SIGCONT"@, 18int),
            spec[4] == ("SIGHUP"@, 1int),
            spec[5] == ("SIGUSR1"@, 10int),
            spec[6] == ("SIGUSR2"@, 12int),
            forall|j: int| 0 <= j < i ==> spec[j].1 != num as int,
        decreases menu.len() - i,
    {
        let (name, n, _) = menu[i];
        assert(spec[i as int] == (name@, n as int));
        if n == num {
            return name;
        }
        i = i + 1;
    }
    assert(spec[0].1 != num && spec[1].1 != num && spec[2].1 != num && spec[3].1 != num
        && spec[4].1 != num && spec[5].1 != num && spec[6].1 != num);
    "UNKNOWN"
}

} // verus!
