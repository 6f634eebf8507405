//! The client's command line: one line of input becomes one request.

use vstd::prelude::*;
use crate::text::same_text;
use crate::wire::{Message, MessageView};

verus! {

/// What one line of input asks the client to do.
#[derive(Debug)]
pub enum Command {
    /// The line holds no word: the session ends.
    Quit,
    /// Send this request and show the response.
    Request(Message),
    /// The command lacks the account name it needs.
    MissingArgument,
    /// The first word is no command.
    UnknownCommand,
}

/// A [`Command`] in contracts.
pub ghost enum CommandView {
    Quit,
    Request(MessageView),
    MissingArgument,
    UnknownCommand,
}

impl View for Command {
    type V = CommandView;

    open spec fn view(&self) -> CommandView {
        match self {
            Command::Quit => CommandView::Quit,
            Command::Request(m) => CommandView::Request(m@),
            Command::MissingArgument => CommandView::MissingArgument,
            Command::UnknownCommand => CommandView::UnknownCommand,
        }
    }
}

/// The words of a line as contracts see them.
pub open spec fn words_view(words: Seq<String>) -> Seq<Seq<char>> {
    words.map_values(|w: String| w@)
}

/// The words with one space between neighbours.
pub open spec fn join_words(words: Seq<Seq<char>>) -> Seq<char>
    decreases words.len(),
{
    if words.len() == 0 {
        Seq::empty()
    } else if words.len() == 1 {
        words[0]
    } else {
        join_words(words.drop_last()) + seq![' '] + words.last()
    }
}

/// The request that a command word and its arguments stand for.
pub open spec fn spec_parse_words(words: Seq<Seq<char>>) -> CommandView {
    if words.len() == 0 {
        CommandView::Quit
    } else if words[0] == "create"@ {
        if words.len() < 2 {
            CommandView::MissingArgument
        } else {
            CommandView::Request(MessageView::Create(words[1]))
        }
    } else if words[0] == "list"@ {
        if words.len() < 2 {
            CommandView::Request(MessageView::List(Seq::empty()))
        } else {
            CommandView::Request(MessageView::List(words[1]))
        }
    } else if words[0] == "send"@ {
        if words.len() < 2 {
            CommandView::MissingArgument
        } else {
            CommandView::Request(MessageView::Send(words[1], join_words(words.skip(2))))
        }
    } else if words[0] == "deliver"@ {
        if words.len() < 2 {
            CommandView::MissingArgument
        } else {
            CommandView::Request(MessageView::Deliver(words[1]))
        }
    } else if words[0] == "delete"@ {
        if words.len() < 2 {
            CommandView::MissingArgument
        } else {
            CommandView::Request(MessageView::Delete(words[1]))
        }
    } else {
        CommandView::UnknownCommand
    }
}

/// Joins the words from `from` on with single spaces.
pub fn join_from(words: &Vec<String>, from: usize) -> (r: String)
    requires
        from <= words.len(),
    ensures
        r@ == join_words(words_view(words@).skip(from as int)),
{
    let ghost all = words_view(words@);
    let mut text = String::new();
    let mut i: usize = from;
    while i < words.len()
        invariant
            from <= i <= words.len(),
            all == words_view(words@),
            text@ == join_words(all.subrange(from as int, i as int)),
        decreases words.len() - i,
    {
        let ghost done = all.subrange(from as int, i as int);
        let ghost next = all.subrange(from as int, i + 1);
        assert(next.drop_last() =~= done);
        assert(next.last() == words[i as int]@);
        if i > from {
            proof {
                reveal_strlit(" ");
            }
            text.append(" ");
            assert(" "@ =~= seq![' ']);
        }
        text.append(words[i].as_str());
        i += 1;
    }
    assert(all.subrange(from as int, i as int) =~= all.skip(from as int));
    text
}

/// Reads the words of a line as a command.
pub fn parse_words(words: &Vec<String>) -> (r: Command)
    ensures
        r@ == spec_parse_words(words_view(words@)),
{
    let ghost all = words_view(words@);
    if words.len() == 0 {
        return Command::Quit;
    }
    assert(all[0] == words[0]@);
    let cmd = words[0].as_str();
    let has_argument = words.len() >= 2;
    if has_argument {
        assert(all[1] == words[1]@);
    }
    if same_text(cmd, "create") {
        if has_argument {
            Command::Request(Message::Create(words[1].clone()))
        } else {
            Command::MissingArgument
        }
    } else if same_text(cmd, "list") {
        if has_argument {
            Command::Request(Message::List(words[1].clone()))
        } else {
            Command::Request(Message::List(String::new()))
        }
    } else if same_text(cmd, "send") {
        if has_argument {
            Command::Request(Message::Send(words[1].clone(), join_from(words, 2)))
        } else {
            Command::MissingArgument
        }
    } else if same_text(cmd, "deliver") {
        if has_argument {
            Command::Request(Message::Deliver(words[1].clone()))
        } else {
            Command::MissingArgument
        }
    } else if same_text(cmd, "delete") {
        if has_argument {
            Command::Request(Message::Delete(words[1].clone()))
        } else {
            Command::MissingArgument
        }
    } else {
        Command::UnknownCommand
    }
}

/// The words that `str::split_whitespace` finds in a line, in their order.
pub uninterp spec fn whitespace_words(line: Seq<char>) -> Seq<Seq<char>>;

/// Calls `str::split_whitespace` and collects the words it yields. Which
/// characters count as white space is std's matter; the words are whatever it
/// finds, and the same line always gives the same words.
#[verifier::external_body]
fn split_words(line: &str) -> (words: Vec<String>)
    ensures
        words_view(words@) == whitespace_words(line@),
{
    line.split_whitespace().map(String::from).collect()
}

/// Reads one line of input as a command: the first word names it, the next
/// is the account or the filter, and for `send` the remaining words, joined
/// by single spaces, are the text.
pub fn parse_command(line: &str) -> (r: Command)
    ensures
        r@ == spec_parse_words(whitespace_words(line@)),
{
    let words = split_words(line);
    parse_words(&words)
}

} // verus!
