//! Where a message came from and what kind of channel carried it.
use vstd::prelude::*;
use crate::text::str_eq;

verus! {

/// The lower-case form of a string, as `str::to_lowercase` gives it.
pub uninterp spec fn lower_of(s: Seq<char>) -> Seq<char>;

/// Relies on `str::to_lowercase`: Unicode lower-casing, a function of the
/// characters alone.
#[verifier::external_body]
fn lowercase(s: &str) -> (r: String)
    ensures
        r@ == lower_of(s@),
{
    s.to_lowercase()
}

/// The platform a message or account belongs to.
#[derive(Debug, Clone, Copy, PartialEq, Eq, Structural)]
pub enum Source {
    Discord,
    Telegram,
    Github,
    X,
    Twitter,
}

impl Source {
    /// The stored name of the source.
    pub open spec fn name_of(self) -> Seq<char> {
        match self {
            Source::Discord => "discord"@,
            Source::Telegram => "telegram"@,
            Source::Github => "github"@,
            Source::X => "x"@,
            Source::Twitter => "twitter"@,
        }
    }

    /// The source whose stored name is exactly `s`, if any.
    pub open spec fn parse(s: Seq<char>) -> Option<Source> {
        if s == "discord"@ {
            Some(Source::Discord)
        } else if s == "telegram"@ {
            Some(Source::Telegram)
        } else if s == "github"@ {
            Some(Source::Github)
        } else if s == "x"@ {
            Some(Source::X)
        } else if s == "twitter"@ {
            Some(Source::Twitter)
        } else {
            None
        }
    }

    pub fn as_str(&self) -> (r: &'static str)
        ensures
            r@ == self.name_of(),
    {
        match self {
            Source::Discord => "discord",
            Source::Telegram => "telegram",
            Source::Github => "github",
            Source::X => "x",
            Source::Twitter => "twitter",
        }
    }

    /// Parses a name that is already in lower case.
    pub fn from_lowercase(s: &str) -> (r: Option<Source>)
        ensures
            r == Source::parse(s@),
    {
        if str_eq(s, "discord") {
            Some(Source::Discord)
        } else if str_eq(s, "telegram") {
            Some(Source::Telegram)
        } else if str_eq(s, "github") {
            Some(Source::Github)
        } else if str_eq(s, "x") {
            Some(Source::X)
        } else if str_eq(s, "twitter") {
            Some(Source::Twitter)
        } else {
            None
        }
    }

    /// Parses a source name in any letter case.
    pub fn from_str(s: &str) -> (r: Option<Source>)
        ensures
            r == Source::parse(lower_of(s@)),
    {
        let lower = lowercase(s);
        Source::from_lowercase(lower.as_str())
    }
}

/// The kind of conversation a message was posted in.
#[derive(Debug, Clone, Copy, PartialEq, Eq, Structural)]
pub enum ChannelType {
    DirectMessage,
    Text,
    Voice,
    Thread,
}

impl ChannelType {
    /// The stored name of the channel type.
    pub open spec fn name_of(self) -> Seq<char> {
        match self {
            ChannelType::DirectMessage => "direct_message"@,
            ChannelType::Text => "text"@,
            ChannelType::Voice => "voice"@,
            ChannelType::Thread => "thread"@,
        }
    }

    /// The channel type whose stored name is exactly `s`, if any.
    pub open spec fn parse(s: Seq<char>) -> Option<ChannelType> {
        if s == "direct_message"@ {
            Some(ChannelType::DirectMessage)
        } else if s == "text"@ {
            Some(ChannelType::Text)
        } else if s == "voice"@ {
            Some(ChannelType::Voice)
        } else if s == "thread"@ {
            Some(ChannelType::Thread)
        } else {
            None
        }
    }

    pub fn as_str(&self) -> (r: &'static str)
        ensures
            r@ == self.name_of(),
    {
        match self {
            ChannelType::DirectMessage => "direct_message",
            ChannelType::Text => "text",
            ChannelType::Voice => "voice",
            ChannelType::Thread => "thread",
        }
    }

    /// Parses a name that is already in lower case.
    pub fn from_lowercase(s: &str) -> (r: Option<ChannelType>)
        ensures
            r == ChannelType::parse(s@),
    {
        if str_eq(s, "direct_message") {
            Some(ChannelType::DirectMessage)
        } else if str_eq(s, "text") {
            Some(ChannelType::Text)
        } else if str_eq(s, "voice") {
            Some(ChannelType::Voice)
        } else if str_eq(s, "thread") {
            Some(ChannelType::Thread)
        } else {
            None
        }
    }

    /// Parses a channel type name in any letter case.
    pub fn from_str(s: &str) -> (r: Option<ChannelType>)
        ensures
            r == ChannelType::parse(lower_of(s@)),
    {
        let lower = lowercase(s);
        ChannelType::from_lowercase(lower.as_str())
    }
}

/// A source's stored name, parsed as already lower-case text, gives back
/// that source.
pub proof fn source_name_round_trip(s: Source)
    ensures
        Source::parse(s.name_of()) == Some(s),
{
    reveal_strlit("discord");
    reveal_strlit("telegram");
    reveal_strlit("github");
    reveal_strlit("x");
    reveal_strlit("twitter");
    assert("telegram"@.len() != "discord"@.len());
    assert("github"@.len() != "discord"@.len() && "github"@.len() != "telegram"@.len());
    assert("x"@.len() != "discord"@.len() && "x"@.len() != "telegram"@.len()
        && "x"@.len() != "github"@.len());
    assert("twitter"@[0] != "discord"@[0] && "twitter"@.len() != "telegram"@.len()
        && "twitter"@.len() != "github"@.len() && "twitter"@.len() != "x"@.len());
}

/// A channel type's stored name, parsed as already lower-case text, gives
/// back that channel type.
pub proof fn channel_type_name_round_trip(c: ChannelType)
    ensures
        ChannelType::parse(c.name_of()) == Some(c),
{
    reveal_strlit("direct_message");
    reveal_strlit("text");
    reveal_strlit("voice");
    reveal_strlit("thread");
    assert("text"@.len() != "direct_message"@.len());
    assert("voice"@.len() != "direct_message"@.len() && "voice"@.len() != "text"@.len());
    assert("thread"@.len() != "direct_message"@.len() && "thread"@.len() != "text"@.len()
        && "thread"@.len() != "voice"@.len());
}

} // verus!
