//! The control socket's commands and the places of the sockets.
use crate::text::{self, views};
use vstd::prelude::*;
use vstd::string::*;

verus! {

/// What a client of the control socket can ask for.
#[derive(Debug, Clone, Copy, PartialEq, Eq, Structural)]
pub enum Command {
    SwitchWorkspace(u32),
}

/// The command that the words of a line stand for.
pub open spec fn command_of(words: Seq<Seq<char>>) -> Option<Command> {
    if words.len() >= 2 && words[0] == "workspace"@ {
        match text::number_of(words[1]) {
            Some(n) => if n <= u32::MAX {
                Some(Command::SwitchWorkspace(n as u32))
            } else {
                None
            },
            None => None,
        }
    } else {
        None
    }
}

/// Parse one line of the control socket.
pub fn parse_command(line: &str) -> (r: Option<Command>)
    ensures
        r == command_of(text::words_of(line@, true)),
{
    let chars = text::chars_of(line);
    let words = text::split_words(&chars, true);
    proof {
        assert(words@.len() == views(words@).len());
    }
    if words.len() < 2 {
        return None;
    }
    proof {
        assert(views(words@)[0] == words@[0]@);
        assert(views(words@)[1] == words@[1]@);
    }
    if !text::str_eq(words[0].as_str(), "workspace") {
        return None;
    }
    let number = text::chars_of(words[1].as_str());
    proof {
        assert(number@.subrange(0, number.len() as int) =~= number@);
    }
    match text::parse_usize(&number, 0) {
        Some(n) => {
            if n as u64 <= u32::MAX as u64 {
                Some(Command::SwitchWorkspace(n as u32))
            } else {
                None
            }
        },
        None => None,
    }
}

/// The workspace that a command means: they are numbered from one on.
pub open spec fn workspace_meant(command: Command) -> Option<usize> {
    match command {
        Command::SwitchWorkspace(number) => if number >= 1 {
            Some((number - 1) as usize)
        } else {
            None
        },
    }
}

/// The index of the workspace that a command switches to. Users count from
/// one; zero names no workspace.
pub fn apply_command(command: Command) -> (r: Option<usize>)
    ensures
        r == workspace_meant(command),
{
    match command {
        Command::SwitchWorkspace(number) => {
            if number >= 1 {
                Some((number - 1) as usize)
            } else {
                None
            }
        },
    }
}

/// The bytes of text that is all ASCII.
pub open spec fn ascii_bytes(text: Seq<char>) -> Seq<u8> {
    text.map_values(|c: char| c as u8)
}

/// `name` in the directory `dir`. Directories are bytes: they need not be text.
pub open spec fn joined(dir: Seq<u8>, name: Seq<char>) -> Seq<u8> {
    if dir.last() == 47 {
        dir + ascii_bytes(name)
    } else {
        dir.push(47) + ascii_bytes(name)
    }
}

/// Where a socket lives: in the runtime directory where there is one, else at
/// the fallback.
pub open spec fn socket_place(
    runtime_dir: Option<Seq<u8>>,
    name: Seq<char>,
    fallback: Seq<char>,
) -> Seq<u8> {
    match runtime_dir {
        Some(dir) => if dir.len() > 0 {
            joined(dir, name)
        } else {
            ascii_bytes(fallback)
        },
        None => ascii_bytes(fallback),
    }
}

pub open spec fn dir_view(runtime_dir: Option<&Vec<u8>>) -> Option<Seq<u8>> {
    match runtime_dir {
        Some(dir) => Some(dir@),
        None => None,
    }
}

fn push_ascii(bytes: &mut Vec<u8>, text: &str)
    ensures
        final(bytes)@ == old(bytes)@ + ascii_bytes(text@),
{
    let ghost before = bytes@;
    let ghost all = ascii_bytes(text@);
    let len: usize = text.unicode_len();
    let mut i: usize = 0;
    proof {
        assert(before + all.subrange(0, 0) =~= before);
    }
    while i < len
        invariant
            i <= len,
            len == text@.len(),
            all == ascii_bytes(text@),
            bytes@ == before + all.subrange(0, i as int),
        decreases len - i,
    {
        bytes.push(text.get_char(i) as u8);
        proof {
            assert(before + all.subrange(0, i + 1) =~= (before + all.subrange(0, i as int)).push(
                all[i as int],
            ));
        }
        i = i + 1;
    }
    proof {
        assert(all.subrange(0, i as int) =~= all);
    }
}

fn socket_path(runtime_dir: Option<&Vec<u8>>, name: &str, fallback: &str) -> (r: Vec<u8>)
    ensures
        r@ == socket_place(dir_view(runtime_dir), name@, fallback@),
{
    let mut path: Vec<u8> = Vec::new();
    match runtime_dir {
        Some(dir) => {
            let len: usize = dir.len();
            if len > 0 {
                let mut i: usize = 0;
                while i < len
                    invariant
                        i <= len,
                        len == dir@.len(),
                        path@ =~= dir@.subrange(0, i as int),
                    decreases len - i,
                {
                    path.push(dir[i]);
                    i = i + 1;
                }
                proof {
                    assert(dir@.subrange(0, i as int) =~= dir@);
                }
                if dir[len - 1] != 47 {
                    path.push(47);
                }
                push_ascii(&mut path, name);
                return path;
            }
        },
        None => {},
    }
    push_ascii(&mut path, fallback);
    proof {
        assert(path@ =~= ascii_bytes(fallback@));
    }
    path
}

/// Path of the event socket, the read-only push channel for subscribers.
pub fn event_socket_path(runtime_dir: Option<&Vec<u8>>) -> (r: Vec<u8>)
    ensures
        r@ == socket_place(
            dir_view(runtime_dir),
            "beewm-events.sock"@,
            "/tmp/beewm-events.sock"@,
        ),
{
    socket_path(runtime_dir, "beewm-events.sock", "/tmp/beewm-events.sock")
}

/// Path of the control socket.
pub fn control_socket_path(runtime_dir: Option<&Vec<u8>>) -> (r: Vec<u8>)
    ensures
        r@ == socket_place(
            dir_view(runtime_dir),
            "beewm-control.sock"@,
            "/tmp/beewm-control.sock"@,
        ),
{
    socket_path(runtime_dir, "beewm-control.sock", "/tmp/beewm-control.sock")
}

/// One event as it goes to the subscribers: a line.
pub fn event_line(event: &str) -> (r: String)
    ensures
        r@ == event@.push('\n'),
{
    let mut line = event.to_owned();
    line.push('\n');
    line
}

/// A command for a workspace, written with its number, is read as that number.
pub proof fn a_workspace_command_is_read_as_written(n: u32, rest: Seq<Seq<char>>)
    ensures
        command_of(seq!["workspace"@, text::decimal_of(n as nat)] + rest) == Some(
            Command::SwitchWorkspace(n),
        ),
        command_of(seq!["workspace"@]) is None,
        command_of(Seq::empty()) is None,
{
    let words = seq!["workspace"@, text::decimal_of(n as nat)] + rest;
    assert(words[0] == "workspace"@ && words[1] == text::decimal_of(n as nat));
    text::numbers_are_read_as_they_are_written(n as nat);
}

/// Nothing but a workspace command is a command.
pub proof fn other_words_are_no_command(words: Seq<Seq<char>>)
    ensures
        words.len() >= 1 && words[0] != "workspace"@ ==> command_of(words) is None,
        words.len() < 2 ==> command_of(words) is None,
{
}

/// A socket lies in its directory: the path is the directory, one slash and the name.
pub proof fn a_socket_lies_in_its_directory(dir: Seq<u8>, name: Seq<char>, fallback: Seq<char>)
    requires
        dir.len() > 0,
    ensures
        ({
            let path = socket_place(Some(dir), name, fallback);
            let n = dir.len() as int;
            &&& path.subrange(0, n) == dir
            &&& dir.last() != 47 ==> path.len() == n + 1 + name.len() && path[n] == 47
            &&& dir.last() == 47 ==> path.len() == n + name.len()
            &&& forall|i: int|
                0 <= i < name.len() ==> path[path.len() - name.len() + i]
                    == #[trigger] name[i] as u8
        }),
        socket_place(None, name, fallback).len() == fallback.len(),
        socket_place(None, name, fallback) == socket_place(Some(Seq::empty()), name, fallback),
{
    let path = socket_place(Some(dir), name, fallback);
    assert(path.subrange(0, dir.len() as int) =~= dir);
}

/// The first workspace is number one: a command with a number above zero goes to the
/// workspace with that many before it less one, and one with zero goes nowhere.
pub proof fn workspaces_are_numbered_from_one(n: u32)
    ensures
        n > 0 ==> ({
            let command = command_of(seq!["workspace"@, text::decimal_of(n as nat)]);
            command is Some && workspace_meant(command->0) is Some && workspace_meant(
                command->0,
            )->0 + 1 == n
        }),
        workspace_meant(Command::SwitchWorkspace(0)) is None,
{
    a_workspace_command_is_read_as_written(n, Seq::empty());
    assert(seq!["workspace"@, text::decimal_of(n as nat)] + Seq::<Seq<char>>::empty()
        =~= seq!["workspace"@, text::decimal_of(n as nat)]);
}

} // verus!
