use vstd::prelude::*;
use vstd::string::*;

verus! {

/// What the player asked for on one line of input.
#[derive(Clone, Copy, Debug, PartialEq, Eq, Structural)]
pub enum Command {
    Draw,
    Stand,
    Unrecognized,
}

/// The command that a token names; matching is exact and case-sensitive.
pub open spec fn command_of(tok: Seq<char>) -> Command {
    if tok == "draw"@ {
        Command::Draw
    } else if tok == "stand"@ {
        Command::Stand
    } else {
        Command::Unrecognized
    }
}

/// What `str::trim` returns: the text without leading and trailing white space.
pub uninterp spec fn trimmed(s: Seq<char>) -> Seq<char>;

/// Relies on `str::trim`: the result depends on the characters alone.
#[verifier::external_body]
fn trim_text(s: &str) -> (r: &str)
    ensures
        r@ == trimmed(s@),
{
    s.trim()
}

fn same_text(a: &str, b: &str) -> (r: bool)
    ensures
        r == (a@ == b@),
{
    let n = a.unicode_len();
    if n != b.unicode_len() {
        return false;
    }
    let mut i: usize = 0;
    while i < n
        invariant
            n == a@.len(),
            n == b@.len(),
            i <= n,
            forall|k: int| 0 <= k < i ==> a@[k] == b@[k],
        decreases n - i,
    {
        if a.get_char(i) != b.get_char(i) {
            return false;
        }
        i = i + 1;
    }
    assert(a@ =~= b@);
    true
}

/// Reads an already trimmed token as a command.
pub fn command_from_token(tok: &str) -> (r: Command)
    ensures
        r == command_of(tok@),
{
    if same_text(tok, "draw") {
        Command::Draw
    } else if same_text(tok, "stand") {
        Command::Stand
    } else {
        Command::Unrecognized
    }
}

/// Reads one line of input as a command, ignoring surrounding white space.
pub fn parse_command(line: &str) -> (r: Command)
    ensures
        r == command_of(trimmed(line@)),
{
    command_from_token(trim_text(line))
}

} // verus!
