//! The command parser: a pure mapping from one inbound text line to a
//! structured command. Lines that do not start with `/` are broadcasts;
//! `/list`, `/join <room>` and `/name <name>` are commands; anything else
//! starting with `/` is invalid and is reported to the sender only.

use vstd::prelude::*;
use vstd::string::*;

verus! {

/// A structured command, the result of parsing one text line.
pub enum Command {
    /// Plain text, to be relayed to the sender's current room.
    Broadcast(String),
    /// `/list`: ask the hub for all room names.
    ListRooms,
    /// `/join <room>`: move the sender into the named room.
    Join(String),
    /// `/name <name>`: set the sender's display name.
    SetName(String),
    /// A malformed command; the payload is the complaint for the sender.
    Invalid(String),
}

/// The mathematical shape of a parsed command.
pub enum CommandModel {
    Broadcast(Seq<char>),
    ListRooms,
    Join(Seq<char>),
    SetName(Seq<char>),
    Invalid(Seq<char>),
}

impl View for Command {
    type V = CommandModel;

    open spec fn view(&self) -> CommandModel {
        match self {
            Command::Broadcast(t) => CommandModel::Broadcast(t@),
            Command::ListRooms => CommandModel::ListRooms,
            Command::Join(r) => CommandModel::Join(r@),
            Command::SetName(n) => CommandModel::SetName(n@),
            Command::Invalid(m) => CommandModel::Invalid(m@),
        }
    }
}

/// The characters that `trim` strips from either end of a line.
pub open spec fn is_space_char(c: char) -> bool {
    c == ' ' || c == '\t' || c == '\r' || c == '\n'
}

/// The line with leading whitespace removed.
pub open spec fn trim_front_spec(s: Seq<char>) -> Seq<char>
    decreases s.len(),
{
    if s.len() == 0 {
        s
    } else if is_space_char(s[0]) {
        trim_front_spec(s.drop_first())
    } else {
        s
    }
}

/// The line with trailing whitespace removed.
pub open spec fn trim_back_spec(s: Seq<char>) -> Seq<char>
    decreases s.len(),
{
    if s.len() == 0 {
        s
    } else if is_space_char(s.last()) {
        trim_back_spec(s.drop_last())
    } else {
        s
    }
}

/// The line with whitespace removed from both ends.
pub open spec fn trim_spec(s: Seq<char>) -> Seq<char> {
    trim_back_spec(trim_front_spec(s))
}

/// Index of the first space in `s`, or `s.len()` if there is none.
pub open spec fn first_space(s: Seq<char>) -> int
    decreases s.len(),
{
    if s.len() == 0 {
        0
    } else if s[0] == ' ' {
        0
    } else {
        1 + first_space(s.drop_first())
    }
}

pub proof fn lemma_first_space(s: Seq<char>)
    ensures
        0 <= first_space(s) <= s.len(),
        first_space(s) < s.len() ==> s[first_space(s)] == ' ',
        forall|j: int| 0 <= j < first_space(s) ==> s[j] != ' ',
    decreases s.len(),
{
    if s.len() == 0 {
    } else if s[0] == ' ' {
    } else {
        lemma_first_space(s.drop_first());
        assert forall|j: int| 0 <= j < first_space(s) implies s[j] != ' ' by {
            if j > 0 {
                assert(s.drop_first()[j - 1] == s[j]);
            }
        }
    }
}

/// What parsing one (already trimmed) line yields.
pub open spec fn parse_spec(line: Seq<char>) -> CommandModel {
    if line.len() == 0 || line[0] != '/' {
        CommandModel::Broadcast(line)
    } else {
        let i = first_space(line);
        let head = line.subrange(0, i);
        if head == "/list"@ {
            CommandModel::ListRooms
        } else if head == "/join"@ {
            if i < line.len() {
                CommandModel::Join(line.subrange(i + 1, line.len() as int))
            } else {
                CommandModel::Invalid("room name is required"@)
            }
        } else if head == "/name"@ {
            if i < line.len() {
                CommandModel::SetName(line.subrange(i + 1, line.len() as int))
            } else {
                CommandModel::Invalid("name is required"@)
            }
        } else {
            CommandModel::Invalid("unknown command: "@ + head)
        }
    }
}

/// Whether two string slices hold the same characters.
pub fn str_eq(a: &str, b: &str) -> (r: bool)
    ensures
        r == (a@ == b@),
{
    let x = a.to_owned();
    let y = b.to_owned();
    x == y
}

/// Whether `c` counts as whitespace for `trim`.
pub fn is_space(c: char) -> (r: bool)
    ensures
        r == is_space_char(c),
{
    c == ' ' || c == '\t' || c == '\r' || c == '\n'
}

/// Strips leading whitespace.
pub fn trim_front<'a>(s: &'a str) -> (r: &'a str)
    ensures
        r@ == trim_front_spec(s@),
    decreases s@.len(),
{
    let n = s.unicode_len();
    if n == 0 {
        s
    } else if is_space(s.get_char(0)) {
        let rest = s.substring_char(1, n);
        proof {
            assert(rest@ =~= s@.drop_first());
        }
        trim_front(rest)
    } else {
        s
    }
}

/// Strips trailing whitespace.
pub fn trim_back<'a>(s: &'a str) -> (r: &'a str)
    ensures
        r@ == trim_back_spec(s@),
    decreases s@.len(),
{
    let n = s.unicode_len();
    if n == 0 {
        s
    } else if is_space(s.get_char(n - 1)) {
        let rest = s.substring_char(0, n - 1);
        proof {
            assert(rest@ =~= s@.drop_last());
        }
        trim_back(rest)
    } else {
        s
    }
}

/// Strips whitespace from both ends, as the session does before parsing.
pub fn trim<'a>(s: &'a str) -> (r: &'a str)
    ensures
        r@ == trim_spec(s@),
{
    trim_back(trim_front(s))
}

/// Index of the first space in `s`, or its length if there is none.
pub fn find_space(s: &str) -> (i: usize)
    ensures
        i as int == first_space(s@),
        i <= s@.len(),
    decreases s@.len(),
{
    let n = s.unicode_len();
    if n == 0 {
        0
    } else if s.get_char(0) == ' ' {
        0
    } else {
        let rest = s.substring_char(1, n);
        proof {
            assert(rest@ =~= s@.drop_first());
        }
        let r = find_space(rest);
        1 + r
    }
}

/// Parses one trimmed line into a command.
pub fn parse_command(line: &str) -> (c: Command)
    ensures
        c@ == parse_spec(line@),
{
    let n = line.unicode_len();
    if n == 0 || line.get_char(0) != '/' {
        Command::Broadcast(line.to_owned())
    } else {
        let i = find_space(line);
        let head = line.substring_char(0, i);
        if str_eq(head, "/list") {
            Command::ListRooms
        } else if str_eq(head, "/join") {
            if i < n {
                Command::Join(line.substring_char(i + 1, n).to_owned())
            } else {
                Command::Invalid(String::from_str("room name is required"))
            }
        } else if str_eq(head, "/name") {
            if i < n {
                Command::SetName(line.substring_char(i + 1, n).to_owned())
            } else {
                Command::Invalid(String::from_str("name is required"))
            }
        } else {
            let mut m = String::from_str("unknown command: ");
            m.append(head);
            Command::Invalid(m)
        }
    }
}

} // verus!
