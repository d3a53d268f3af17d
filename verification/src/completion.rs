//! Shell completion: what to offer for a command line.

use crate::text::{chars_of, same_chars, words, words_of};
use vstd::prelude::*;
use vstd::string::StringExecFns;

verus! {

/// What is offered to complete a command line.
#[derive(Debug, Clone, Copy, PartialEq, Eq, Structural)]
pub enum Offer {
    /// The subcommands that work on a workspace.
    Subcommands,
    /// The subcommand that makes a workspace.
    Init,
    /// The keys of the library.
    LibraryEntries,
    /// The repositories of the workspace.
    WorkspaceRepos,
    /// Nothing.
    Nothing,
}

/// What is offered while the subcommand is still being typed.
pub open spec fn subcommand_offer(in_workspace: bool) -> Offer {
    if in_workspace {
        Offer::Subcommands
    } else {
        Offer::Init
    }
}

/// What is offered behind the subcommand `subcommand`: the library's keys
/// for `restore`, the workspace's repositories for any other; nothing
/// outside a workspace.
pub open spec fn argument_offer(subcommand: Seq<char>, in_workspace: bool) -> Offer {
    if !in_workspace {
        Offer::Nothing
    } else if subcommand == "restore"@ {
        Offer::LibraryEntries
    } else {
        Offer::WorkspaceRepos
    }
}

/// What bash is offered for `line`, the command line up to the cursor.
pub open spec fn bash_offer(line: Seq<char>, in_workspace: bool) -> Offer {
    let typed = words(line);
    if typed.len() <= 1 {
        subcommand_offer(in_workspace)
    } else {
        argument_offer(typed[1], in_workspace)
    }
}

/// What fish is offered for the command line `line`. A second word is
/// still being typed as long as no space follows it.
pub open spec fn fish_offer(line: Seq<char>, in_workspace: bool) -> Offer {
    let typed = words(line);
    if typed.len() <= 1 || (typed.len() == 2 && !(line.len() > 0 && line.last() == ' ')) {
        subcommand_offer(in_workspace)
    } else {
        argument_offer(typed[1], in_workspace)
    }
}

fn offer_for(typed: &Vec<Vec<char>>, in_workspace: bool) -> (offer: Offer)
    requires
        typed@.len() >= 2,
    ensures
        offer == argument_offer(typed@[1]@, in_workspace),
{
    let restore = chars_of("restore");
    if !in_workspace {
        Offer::Nothing
    } else if same_chars(&typed[1], &restore) {
        Offer::LibraryEntries
    } else {
        Offer::WorkspaceRepos
    }
}

/// Decides what to offer bash for `line`, the command line up to the
/// cursor: the subcommands while at most one word is typed, and behind the
/// subcommand the names that it takes.
pub fn complete_bash(line: &str, in_workspace: bool) -> (offer: Offer)
    ensures
        offer == bash_offer(line@, in_workspace),
{
    let text = chars_of(line);
    let typed = words_of(&text);
    if typed.len() <= 1 {
        if in_workspace {
            Offer::Subcommands
        } else {
            Offer::Init
        }
    } else {
        assert(crate::text::views(typed@)[1] == typed@[1]@);
        offer_for(&typed, in_workspace)
    }
}

/// Decides what to offer fish for the command line `line`.
pub fn complete_fish(line: &str, in_workspace: bool) -> (offer: Offer)
    ensures
        offer == fish_offer(line@, in_workspace),
{
    let text = chars_of(line);
    let typed = words_of(&text);
    let spaced = text.len() > 0 && text[text.len() - 1] == ' ';
    if typed.len() <= 1 || (typed.len() == 2 && !spaced) {
        if in_workspace {
            Offer::Subcommands
        } else {
            Offer::Init
        }
    } else {
        assert(crate::text::views(typed@)[1] == typed@[1]@);
        offer_for(&typed, in_workspace)
    }
}

/// A line for fish: the completion, a tab, and what is said of it.
pub fn fish_line(completion: &str, description: &str) -> (out: String)
    ensures
        out@ == completion@ + seq!['\t'] + description@,
{
    proof {
        reveal_strlit("\t");
        assert("\t"@ =~= seq!['\t']);
    }
    completion.to_string().concat("\t").concat(description)
}

} // verus!
