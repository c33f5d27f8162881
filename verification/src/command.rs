//! Commands and the text they produce.

use vstd::prelude::*;
use vstd::string::StringExecFns;

verus! {

/// The text produced by adding `item`: the word `added`, a colon, the item.
pub open spec fn added(item: Seq<char>) -> Seq<char> {
    "added:"@ + item
}

/// The text produced by removing `item`: the word `removed`, a colon, the item.
pub open spec fn removed(item: Seq<char>) -> Seq<char> {
    "removed:"@ + item
}

/// What a command is, apart from how it is stored: its kind and the item it names.
pub enum CommandView {
    AddItem(Seq<char>),
    RemoveItem(Seq<char>),
}

impl CommandView {
    /// The text that executing the command produces.
    pub open spec fn outcome(self) -> Seq<char> {
        match self {
            CommandView::AddItem(item) => added(item),
            CommandView::RemoveItem(item) => removed(item),
        }
    }
}

/// Adds an item.
#[derive(Debug)]
pub struct AddItem {
    pub item: String,
}

/// Removes an item.
#[derive(Debug)]
pub struct RemoveItem {
    pub item: String,
}

/// A unit of work whose execution produces a string.
#[derive(Debug)]
pub enum Command {
    AddItem(AddItem),
    RemoveItem(RemoveItem),
}

impl AddItem {
    /// Produces the text that tells of the addition of the item.
    pub fn execute(&self) -> (result: String)
        ensures
            result@ == added(self.item@),
    {
        String::from_str("added:").concat(self.item.as_str())
    }
}

impl RemoveItem {
    /// Produces the text that tells of the removal of the item.
    pub fn execute(&self) -> (result: String)
        ensures
            result@ == removed(self.item@),
    {
        String::from_str("removed:").concat(self.item.as_str())
    }
}

impl View for Command {
    type V = CommandView;

    open spec fn view(&self) -> CommandView {
        match self {
            Command::AddItem(add) => CommandView::AddItem(add.item@),
            Command::RemoveItem(remove) => CommandView::RemoveItem(remove.item@),
        }
    }
}

impl Command {
    /// Executes the command, whichever kind it is.
    pub fn execute(&self) -> (result: String)
        ensures
            result@ == self@.outcome(),
    {
        match self {
            Command::AddItem(add) => add.execute(),
            Command::RemoveItem(remove) => remove.execute(),
        }
    }
}

} // verus!
