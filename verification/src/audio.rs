//! The list of microphones offered to the user.

use vstd::prelude::*;

use crate::history::contains_string;

verus! {

/// The views of a list of strings.
pub open spec fn strings_view(s: Seq<String>) -> Seq<Seq<char>> {
    s.map_values(|x: String| x@)
}

/// How the default device is marked in the list: its name followed by
/// " (default)".
pub open spec fn marked_default(name: Seq<char>) -> Seq<char> {
    name + " (default)"@
}

/// The device list built from the default device's name and the first `n`
/// names found: the default first, marked (when it has a name), then each
/// other name once, in the order found.
pub open spec fn device_list(default_name: Seq<char>, names: Seq<Seq<char>>, n: int) -> Seq<Seq<char>>
    decreases n,
{
    if n <= 0 {
        if default_name.len() > 0 { seq![marked_default(default_name)] } else { Seq::empty() }
    } else {
        let before = device_list(default_name, names, n - 1);
        let name = names[n - 1];
        if name != default_name && !before.contains(name) { before.push(name) } else { before }
    }
}

/// The microphones to offer: the default device first, marked as the
/// default, then every other device found, each name once.
pub fn order_device_names(default_name: &String, names: &Vec<String>) -> (r: Vec<String>)
    ensures
        strings_view(r@) == device_list(default_name@, strings_view(names@), names@.len() as int),
{
    let ghost nv = strings_view(names@);
    let mut out: Vec<String> = Vec::new();
    if !default_name.as_str().is_empty() {
        let mut marked = default_name.clone();
        marked.append(" (default)");
        out.push(marked);
    }
    proof {
        assert(strings_view(out@) =~= device_list(default_name@, nv, 0));
    }
    let mut i: usize = 0;
    while i < names.len()
        invariant
            i <= names.len(),
            nv == strings_view(names@),
            strings_view(out@) == device_list(default_name@, nv, i as int),
        decreases names.len() - i,
    {
        let name = &names[i];
        assert(nv[i as int] == name@);
        if *name != *default_name && !contains_string(&out, name) {
            let ghost before = out@;
            out.push(name.clone());
            assert(strings_view(out@) =~= strings_view(before).push(name@));
        }
        i = i + 1;
    }
    out
}

/// No device is offered twice.
pub proof fn law_devices_listed_once(default_name: Seq<char>, names: Seq<Seq<char>>, n: int)
    ensures
        device_list(default_name, names, n).no_duplicates(),
    decreases n,
{
    if n > 0 {
        law_devices_listed_once(default_name, names, n - 1);
    }
}

/// A default device with a name is offered first, marked as the default.
pub proof fn law_default_device_first(default_name: Seq<char>, names: Seq<Seq<char>>, n: int)
    requires
        default_name.len() > 0,
    ensures
        device_list(default_name, names, n).len() > 0,
        device_list(default_name, names, n)[0] == marked_default(default_name),
    decreases n,
{
    if n > 0 {
        law_default_device_first(default_name, names, n - 1);
    }
}

/// Every device found other than the default one is offered under its
/// own name.
pub proof fn law_every_device_offered(default_name: Seq<char>, names: Seq<Seq<char>>, n: int, k: int)
    requires
        0 <= k < n <= names.len(),
        names[k] != default_name,
    ensures
        device_list(default_name, names, n).contains(names[k]),
    decreases n,
{
    let before = device_list(default_name, names, n - 1);
    if n - 1 == k {
        if !before.contains(names[k]) {
            assert(device_list(default_name, names, n).last() == names[k]);
        }
    } else {
        law_every_device_offered(default_name, names, n - 1, k);
    }
    if before.contains(names[k]) {
        let w = choose|w: int| 0 <= w < before.len() && before[w] == names[k];
        assert(device_list(default_name, names, n)[w] == names[k]);
    }
}

/// The name that asks for the system's default microphone.
pub open spec fn default_device_marker() -> Seq<char> {
    "__default__"@
}

/// Which microphone to open.
#[derive(Debug, Clone)]
pub enum DeviceChoice {
    /// The system's default input device.
    Default,
    /// The input device with this name; the default when none has it.
    Named(String),
}

/// The microphone to open for the name asked for: the default one when no
/// name is given or the name is the default marker `__default__`.
pub fn device_choice(device_name: Option<String>) -> (r: DeviceChoice)
    ensures
        match device_name {
            None => r is Default,
            Some(n) => if n@ == default_device_marker() {
                r is Default
            } else {
                r matches DeviceChoice::Named(m) && m@ == n@
            },
        },
{
    match device_name {
        None => DeviceChoice::Default,
        Some(n) => {
            if crate::text::eq_str(&n, "__default__") {
                DeviceChoice::Default
            } else {
                DeviceChoice::Named(n)
            }
        },
    }
}

} // verus!
