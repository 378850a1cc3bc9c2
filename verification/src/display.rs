//! Text for the operator: the list of monitored devices, and the switch
//! for verbose output.

use crate::process::texts;
use vstd::prelude::*;
use vstd::string::*;

verus! {

/// Whether `text` reads exactly as `other`.
pub fn same_text(text: &str, other: &str) -> (same: bool)
    ensures
        same == (text@ == other@),
{
    String::from_str(text) == String::from_str(other)
}

/// Whether the value of the debug switch asks for verbose output.
pub open spec fn asks_for_debug(value: Seq<char>) -> bool {
    value == "1"@ || value == "true"@
}

/// Whether `value`, the setting of the debug switch, asks for verbose
/// output: it does where it is `1` or `true`.
pub fn is_debug(value: &str) -> (debug: bool)
    ensures
        debug == asks_for_debug(value@),
{
    same_text(value, "1") || same_text(value, "true")
}

/// The parts in a row, each followed by one space.
pub open spec fn spaced(parts: Seq<Seq<char>>) -> Seq<char>
    decreases parts.len(),
{
    if parts.len() == 0 {
        Seq::empty()
    } else {
        spaced(parts.drop_last()) + parts.last() + " "@
    }
}

/// The text of one device in the list of devices.
pub open spec fn device_text(name: Seq<char>, addresses: Seq<Seq<char>>) -> Seq<char> {
    "\t- "@ + name + ": "@ + spaced(addresses)
}

/// The addresses of a device in one line, each followed by a space.
pub fn format_addresses(addresses: &Vec<String>) -> (result: String)
    ensures
        result@ == spaced(texts(addresses@)),
{
    let mut result = String::new();
    let mut i: usize = 0;
    while i < addresses.len()
        invariant
            i <= addresses.len(),
            result@ == spaced(texts(addresses@).take(i as int)),
        decreases addresses.len() - i,
    {
        result.append(addresses[i].as_str());
        result.append(" ");
        proof {
            let next = texts(addresses@).take(i + 1);
            assert(next.drop_last() == texts(addresses@).take(i as int));
            assert(next.last() == addresses@[i as int]@);
        }
        i += 1;
    }
    assert(texts(addresses@).take(i as int) == texts(addresses@));
    result
}

/// The line that lists one device with its addresses.
pub fn device_line(name: &str, addresses: &Vec<String>) -> (line: String)
    ensures
        line@ == device_text(name@, texts(addresses@)),
{
    let mut line = String::from_str("\t- ");
    line.append(name);
    line.append(": ");
    line.append(format_addresses(addresses).as_str());
    line
}

} // verus!
