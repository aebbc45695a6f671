//! NetworkManager's numbers for its state and for the way out.

use vstd::prelude::*;

verus! {

/// NetworkManager's State: 50 and up means connected (local, site, global).
pub const NM_STATE_CONNECTED: u32 = 50;

/// Connectivity: no network at all.
pub const CONN_NONE: u32 = 1;

/// Connectivity: a login page stands before the internet.
pub const CONN_PORTAL: u32 = 2;

/// Connectivity: a network, and no internet behind it.
pub const CONN_LIMITED: u32 = 3;

/// Connectivity: the internet.
pub const CONN_FULL: u32 = 4;

/// The name of a connectivity value.
pub open spec fn name_of(v: u32) -> Seq<char> {
    if v == 0 {
        "unknown"@
    } else if v == CONN_NONE {
        "none"@
    } else if v == CONN_PORTAL {
        "portal"@
    } else if v == CONN_LIMITED {
        "limited"@
    } else if v == CONN_FULL {
        "full"@
    } else {
        "?"@
    }
}

/// The name of a connectivity value.
pub fn conn_name(v: u32) -> (name: &'static str)
    ensures
        name@ == name_of(v),
{
    match v {
        0 => "unknown",
        1 => "none",
        2 => "portal",
        3 => "limited",
        4 => "full",
        _ => "?",
    }
}

/// The five values that NetworkManager knows have a name each, and no other
/// value has one of these.
pub proof fn law_names(v: u32)
    ensures
        name_of(0) == "unknown"@,
        name_of(1) == "none"@,
        name_of(2) == "portal"@,
        name_of(3) == "limited"@,
        name_of(4) == "full"@,
        v > 4 ==> name_of(v) == "?"@,
{
}

/// Values that NetworkManager knows are told apart by their names.
pub proof fn law_names_differ(v: u32, w: u32)
    requires
        v <= 4,
        v != w,
    ensures
        name_of(v) != name_of(w),
{
    reveal_strlit("unknown");
    reveal_strlit("none");
    reveal_strlit("portal");
    reveal_strlit("limited");
    reveal_strlit("full");
    reveal_strlit("?");
    assert("unknown"@[0] == 'u' && "none"@[0] == 'n' && "portal"@[0] == 'p');
    assert("limited"@[0] == 'l' && "full"@[0] == 'f' && "?"@[0] == '?');
}

} // verus!
