use vstd::prelude::*;

verus! {

/// What the command line reports for the number of times `-d` was given.
pub open spec fn debug_message_spec(level: u8) -> Seq<char> {
    if level == 0 {
        "Debug mode is off"@
    } else if level == 1 {
        "Debug mode is kind of on"@
    } else if level == 2 {
        "Debug mode is on"@
    } else {
        "Don't be crazy"@
    }
}

/// The line printed for a debug level: off, kind of on, on, or a warning
/// past two.
pub fn debug_message(level: u8) -> (msg: &'static str)
    ensures
        msg@ == debug_message_spec(level),
{
    if level == 0 {
        "Debug mode is off"
    } else if level == 1 {
        "Debug mode is kind of on"
    } else if level == 2 {
        "Debug mode is on"
    } else {
        "Don't be crazy"
    }
}

/// Every count of `-d` past two gets the same warning, "Don't be crazy"; the
/// counts zero, one and two get off, kind of on and on, and these four
/// messages are all different.
pub proof fn law_debug_levels(level: u8)
    ensures
        level >= 3 ==> debug_message_spec(level) == "Don't be crazy"@,
        level >= 3 ==> debug_message_spec(level) == debug_message_spec(3),
        debug_message_spec(0) == "Debug mode is off"@,
        debug_message_spec(1) == "Debug mode is kind of on"@,
        debug_message_spec(2) == "Debug mode is on"@,
        level < 3 ==> debug_message_spec(level) != debug_message_spec(3),
        level < 3 ==> forall|other: u8| other < 3 && other != level ==> debug_message_spec(other)
            != debug_message_spec(level),
{
    reveal_strlit("Don't be crazy");
    reveal_strlit("Debug mode is off");
    reveal_strlit("Debug mode is kind of on");
    reveal_strlit("Debug mode is on");
    assert("Don't be crazy"@.len() != "Debug mode is off"@.len());
    assert("Don't be crazy"@.len() != "Debug mode is on"@.len());
    assert("Don't be crazy"@.len() != "Debug mode is kind of on"@.len());
    assert("Debug mode is off"@.len() != "Debug mode is kind of on"@.len());
    assert("Debug mode is off"@.len() != "Debug mode is on"@.len());
    assert("Debug mode is on"@.len() != "Debug mode is kind of on"@.len());
}

} // verus!
