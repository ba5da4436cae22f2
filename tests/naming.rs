use asuka::github::GitRepo;
use asuka::types::{ChannelType, Source};

#[test]
fn source_names_round_trip() {
    for s in [Source::Discord, Source::Telegram, Source::Github, Source::X, Source::Twitter] {
        assert_eq!(Source::from_str(s.as_str()), Some(s));
    }
    assert_eq!(Source::Discord.as_str(), "discord");
    assert_eq!(Source::X.as_str(), "x");
}

#[test]
fn source_parse_ignores_case() {
    assert_eq!(Source::from_str("TeLeGrAm"), Some(Source::Telegram));
    assert_eq!(Source::from_str("slack"), None);
    assert_eq!(Source::from_str(""), None);
    assert_eq!(Source::from_lowercase("TWITTER"), None);
}

#[test]
fn channel_type_names_round_trip() {
    for c in [ChannelType::DirectMessage, ChannelType::Text, ChannelType::Voice, ChannelType::Thread] {
        assert_eq!(ChannelType::from_str(c.as_str()), Some(c));
    }
    assert_eq!(ChannelType::DirectMessage.as_str(), "direct_message");
    assert_eq!(ChannelType::from_str("DIRECT_MESSAGE"), Some(ChannelType::DirectMessage));
    assert_eq!(ChannelType::from_str("dm"), None);
}

#[test]
fn repo_name_is_last_segment_without_git() {
    let repo = GitRepo::new("https://github.com/cartridge-gg/docs".to_string(), ".repo".to_string());
    assert_eq!(repo.repo_name(), "docs");
    let repo = GitRepo::new("https://example.com/a/tool.git".to_string(), ".repo".to_string());
    assert_eq!(repo.repo_name(), "tool");
    let repo = GitRepo::new("plain.git.git".to_string(), ".repo".to_string());
    assert_eq!(repo.repo_name(), "plain");
    let repo = GitRepo::new("https://example.com/".to_string(), ".repo".to_string());
    assert_eq!(repo.repo_name(), "");
}
