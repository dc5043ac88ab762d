//! The command line: the two positional arguments of the program and the
//! choices of its menu.
use vstd::prelude::*;
use vstd::string::StringSliceAdditionalSpecFns;
use crate::text::{contains_text, same_text};

verus! {

/// The port of the store where the command line names none.
pub const DEFAULT_PORT: u16 = 6969;

/// The number of seconds by which a file may be newer than its extraction
/// without being ingested again by an update from the menu.
pub const UPDATE_INTERVAL_SECONDS: u64 = 5;

/// The directory that is indexed where the command line names none.
pub open spec fn default_path() -> Seq<char> {
    "sample"@
}

/// What the user chose from the menu.
#[derive(Clone, Copy, Debug, PartialEq, Eq, Structural)]
pub enum Command {
    Ingest,
    Update,
    Exit,
    Invalid,
}

/// The choice that a line of input stands for: `1` ingests, `2` updates,
/// `3` leaves, and anything else is no choice.
pub open spec fn command_for(input: Seq<char>) -> Command {
    if input == "1"@ {
        Command::Ingest
    } else if input == "2"@ {
        Command::Update
    } else if input == "3"@ {
        Command::Exit
    } else {
        Command::Invalid
    }
}

/// Reads a choice of the menu from a line of input without its line end.
pub fn parse_command(input: &str) -> (command: Command)
    ensures
        command == command_for(input@),
{
    if same_text(input, "1") {
        Command::Ingest
    } else if same_text(input, "2") {
        Command::Update
    } else if same_text(input, "3") {
        Command::Exit
    } else {
        Command::Invalid
    }
}

/// Decides whether an update can run: it can where the store lists the root
/// that this session has ingested.
pub fn knows_root(root_ids: &Vec<String>, root_id: &str) -> (known: bool)
    ensures
        known == root_ids.deep_view().contains(root_id@),
{
    contains_text(root_ids, root_id)
}

/// The number that a sequence of decimal digits writes; `None` where a byte
/// is no digit. No digits write zero.
pub open spec fn digits_value(bytes: Seq<u8>) -> Option<nat>
    decreases bytes.len(),
{
    if bytes.len() == 0 {
        Some(0)
    } else {
        match digits_value(bytes.drop_last()) {
            None => None,
            Some(before) => if 48 <= bytes.last() <= 57 {
                Some(10 * before + (bytes.last() - 48) as nat)
            } else {
                None
            },
        }
    }
}

/// The digits of a number that may be written with a plus sign in front.
pub open spec fn unsigned_digits(bytes: Seq<u8>) -> Seq<u8> {
    if bytes.len() > 0 && bytes[0] == 43 {
        bytes.skip(1)
    } else {
        bytes
    }
}

/// The port that a text names: at least one decimal digit, with or without
/// a plus sign in front, for a number up to 65535.
pub open spec fn port_of(bytes: Seq<u8>) -> Option<u16> {
    let digits = unsigned_digits(bytes);
    if digits.len() == 0 {
        None
    } else {
        match digits_value(digits) {
            Some(value) => if value <= 65535 {
                Some(value as u16)
            } else {
                None
            },
            None => None,
        }
    }
}

/// A number does not get smaller by more digits, and digits that are none
/// stay none.
proof fn digits_value_grows(bytes: Seq<u8>, n: int)
    requires
        0 <= n <= bytes.len(),
    ensures
        digits_value(bytes.take(n)) is None ==> digits_value(bytes) is None,
        digits_value(bytes) is Some ==> digits_value(bytes.take(n))->Some_0 <= digits_value(
            bytes,
        )->Some_0,
    decreases bytes.len() - n,
{
    if n == bytes.len() {
        assert(bytes.take(n) =~= bytes);
    } else {
        digits_value_grows(bytes, n + 1);
        assert(bytes.take(n + 1).drop_last() =~= bytes.take(n));
    }
}

/// Reads a port number.
pub fn parse_port(text: &str) -> (port: Option<u16>)
    ensures
        port == port_of(text.spec_bytes()),
{
    let bytes = text.as_bytes();
    let start: usize = if bytes.len() > 0 && bytes[0] == 43 {
        1
    } else {
        0
    };
    let ghost digits = unsigned_digits(bytes@);
    if bytes.len() == start {
        return None;
    }
    let mut value: u32 = 0;
    let mut i: usize = start;
    assert(digits.take(0) =~= Seq::<u8>::empty());
    while i < bytes.len()
        invariant
            start <= i <= bytes.len(),
            start <= 1,
            start < bytes.len(),
            bytes@ == text.spec_bytes(),
            digits == unsigned_digits(bytes@),
            digits.len() == bytes.len() - start,
            forall|j: int| 0 <= j < digits.len() ==> digits[j] == bytes@[j + start],
            value <= 65535,
            digits_value(digits.take(i - start)) == Some(value as nat),
        decreases bytes.len() - i,
    {
        let byte = bytes[i];
        proof {
            assert(digits.take(i - start + 1).drop_last() =~= digits.take(i - start));
            assert(digits.take(i - start + 1).last() == byte);
            digits_value_grows(digits, i - start + 1);
        }
        if byte < 48 || byte > 57 {
            return None;
        }
        value = 10 * value + (byte - 48) as u32;
        if value > 65535 {
            return None;
        }
        i += 1;
    }
    assert(digits.take(bytes.len() - start) =~= digits);
    Some(value as u16)
}

/// The two arguments of a run.
#[derive(Clone, Debug, PartialEq, Eq)]
pub struct Arguments {
    pub path: String,
    pub port: u16,
}

/// The second argument of the command line is no port number.
#[derive(Clone, Copy, Debug, PartialEq, Eq, Structural)]
pub struct InvalidPort;

/// Reads the arguments of the program, of which `arguments[0]` is its own
/// name: the directory to index, else `sample`, and the port of the store,
/// else 6969. What follows the port is not looked at.
pub fn parse_arguments(arguments: &Vec<String>) -> (parsed: Result<Arguments, InvalidPort>)
    ensures
        match parsed {
            Ok(a) => {
                &&& a.path@ == if arguments@.len() > 1 {
                    arguments@[1]@
                } else {
                    default_path()
                }
                &&& Some(a.port) == if arguments@.len() > 2 {
                    port_of(vstd::utf8::encode_utf8(arguments@[2]@))
                } else {
                    Some(DEFAULT_PORT)
                }
            },
            Err(_) => arguments@.len() > 2 && port_of(vstd::utf8::encode_utf8(arguments@[2]@))
                is None,
        },
{
    let port = if arguments.len() > 2 {
        match parse_port(arguments[2].as_str()) {
            Some(port) => port,
            None => { return Err(InvalidPort); },
        }
    } else {
        DEFAULT_PORT
    };
    let path = if arguments.len() > 1 {
        arguments[1].clone()
    } else {
        "sample".to_owned()
    };
    Ok(Arguments { path, port })
}

} // verus!
