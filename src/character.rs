//! The persona an agent speaks as.
use vstd::prelude::*;

verus! {

/// A persona: the agent's name and the preamble that sets its voice.
#[derive(Debug, Clone)]
pub struct Character {
    pub name: String,
    pub preamble: String,
}

impl Character {
    pub fn new(name: String, preamble: String) -> (r: Character)
        ensures
            r.name == name,
            r.preamble == preamble,
    {
        Character { name, preamble }
    }
}

/// One line of an example conversation: who spoke, and what.
#[derive(Debug, Clone)]
pub struct Message {
    pub user: String,
    pub content: MessageContent,
}

/// The text of an example line.
#[derive(Debug, Clone)]
pub struct MessageContent {
    pub text: String,
}

/// Style notes for all output, for chat and for posts.
#[derive(Debug, Clone)]
pub struct Style {
    pub all: Vec<String>,
    pub chat: Vec<String>,
    pub post: Vec<String>,
}

} // verus!
