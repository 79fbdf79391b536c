//! What a chat command asks for, apart from carrying it out.

use vstd::prelude::*;
use crate::text::same_text;

verus! {

/// What becomes of a `/plot` command.
#[derive(Copy, Clone, Debug, PartialEq, Eq, Structural)]
pub enum PlotReply {
    /// The plot has an owner and cannot be claimed.
    AlreadyClaimed,
    /// The plot is free: it goes to the player.
    Claim,
    /// The plot belongs to the owner given.
    Owner(u128),
    /// The plot belongs to nobody.
    NotOwned,
    /// The argument names no action.
    WrongArgument,
}

/// What a command is, as far as the plot itself handles it.
#[derive(Copy, Clone, Debug, PartialEq, Eq, Structural)]
pub enum CommandKind {
    Help,
    /// `/speed` with other than one argument.
    SpeedUsage,
    /// `/speed` with its one argument.
    Speed,
    /// Not for the plot to handle.
    Unhandled,
}

/// The reply to `/plot` with argument `command` on a plot owned by `owner`:
/// `claim` or `c` claims a plot that is free, `info` or `i` names the owner.
pub open spec fn spec_plot_reply(command: Seq<char>, owner: Option<u128>) -> PlotReply {
    if command == "claim"@ || command == "c"@ {
        if owner is Some {
            PlotReply::AlreadyClaimed
        } else {
            PlotReply::Claim
        }
    } else if command == "info"@ || command == "i"@ {
        match owner {
            Some(owner) => PlotReply::Owner(owner),
            None => PlotReply::NotOwned,
        }
    } else {
        PlotReply::WrongArgument
    }
}

/// The kind of a command that comes with `arguments` arguments.
pub open spec fn spec_command_kind(command: Seq<char>, arguments: int) -> CommandKind {
    if command == "/help"@ {
        CommandKind::Help
    } else if command == "/speed"@ {
        if arguments == 1 {
            CommandKind::Speed
        } else {
            CommandKind::SpeedUsage
        }
    } else {
        CommandKind::Unhandled
    }
}

/// The reply to `/plot` with argument `command` on a plot owned by `owner`.
pub fn plot_reply(command: &str, owner: Option<u128>) -> (reply: PlotReply)
    ensures
        reply == spec_plot_reply(command@, owner),
{
    if same_text(command, "claim") || same_text(command, "c") {
        if owner.is_some() {
            PlotReply::AlreadyClaimed
        } else {
            PlotReply::Claim
        }
    } else if same_text(command, "info") || same_text(command, "i") {
        match owner {
            Some(owner) => PlotReply::Owner(owner),
            None => PlotReply::NotOwned,
        }
    } else {
        PlotReply::WrongArgument
    }
}

/// The kind of a command that comes with `arguments` arguments.
pub fn command_kind(command: &str, arguments: usize) -> (kind: CommandKind)
    ensures
        kind == spec_command_kind(command@, arguments as int),
{
    if same_text(command, "/help") {
        CommandKind::Help
    } else if same_text(command, "/speed") {
        if arguments == 1 {
            CommandKind::Speed
        } else {
            CommandKind::SpeedUsage
        }
    } else {
        CommandKind::Unhandled
    }
}

/// The plot in which a block coordinate lies: plots are 256 blocks wide,
/// and plot 0 begins at block 0.
pub open spec fn spec_plot_coordinate(block: i32) -> int {
    block as int / 256
}

/// The plot in which a block coordinate lies.
pub fn plot_coordinate(block: i32) -> (plot: i32)
    ensures
        plot == spec_plot_coordinate(block),
        plot * 256 <= block < (plot + 1) * 256,
{
    if block >= 0 {
        block / 256
    } else {
        let below: i32 = -(block + 1);
        -(below / 256) - 1
    }
}

} // verus!
