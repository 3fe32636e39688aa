//! The operation that a run of the synchroniser performs.
use vstd::prelude::*;
use vstd::string::StringExecFns;

verus! {

/// Which way the parameters travel.
#[derive(Debug, Clone, Copy, PartialEq, Eq, Structural)]
pub enum CommandMode {
    /// From the device into the store.
    Pull,
    /// From the store to the device.
    Push,
}

pub open spec fn mode_for_name(s: Seq<char>) -> Option<CommandMode> {
    if s == seq!['p', 'u', 'l', 'l'] {
        Some(CommandMode::Pull)
    } else if s == seq!['p', 'u', 's', 'h'] {
        Some(CommandMode::Push)
    } else {
        None
    }
}

/// `pull` or `push`; any other word names no mode.
pub fn parse_command_mode(s: &str) -> (r: Option<CommandMode>)
    ensures
        r == mode_for_name(s@),
{
    proof {
        reveal_strlit("pull");
        reveal_strlit("push");
    }
    let word = s.to_owned();
    let pull = "pull".to_owned();
    let push = "push".to_owned();
    assert(pull@ =~= seq!['p', 'u', 'l', 'l']);
    assert(push@ =~= seq!['p', 'u', 's', 'h']);
    if word == pull {
        Some(CommandMode::Pull)
    } else if word == push {
        Some(CommandMode::Push)
    } else {
        None
    }
}

impl std::str::FromStr for CommandMode {
    type Err = String;

    fn from_str(s: &str) -> Result<CommandMode, String> {
        match parse_command_mode(s) {
            Some(mode) => Ok(mode),
            None => {
                let mut message = "Unknown command mode: ".to_owned();
                message.append(s);
                Err(message)
            },
        }
    }
}

} // verus!
