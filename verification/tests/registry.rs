use murmur::channels::channel_of_entry;
use murmur::error::MurmurError;
use murmur::socket::{socket_path, validate_channel};

#[test]
fn valid_name_resolves_to_path() {
    assert_eq!(socket_path("work").unwrap(), "/tmp/murmur-work.sock");
}

#[test]
fn resolve_is_deterministic() {
    let a = socket_path("my-channel_1").unwrap();
    let b = socket_path("my-channel_1").unwrap();
    assert_eq!(a, b);
    assert_eq!(a, "/tmp/murmur-my-channel_1.sock");
}

#[test]
fn empty_name_rejected() {
    assert_eq!(
        socket_path(""),
        Err(MurmurError::InvalidChannel(String::new()))
    );
    assert_eq!(validate_channel(""), Err(MurmurError::InvalidChannel(String::new())));
}

#[test]
fn name_of_sixty_four_characters_accepted() {
    let name = "a".repeat(64);
    assert_eq!(socket_path(&name).unwrap(), format!("/tmp/murmur-{}.sock", name));
}

#[test]
fn name_of_sixty_five_characters_rejected() {
    let name = "a".repeat(65);
    assert_eq!(validate_channel(&name), Err(MurmurError::InvalidChannel(name)));
}

#[test]
fn punctuation_rejected() {
    for name in ["foo!bar", "a b", "a/b", "dot.dot", "semi;colon"] {
        assert_eq!(
            validate_channel(name),
            Err(MurmurError::InvalidChannel(name.to_string())),
            "expected rejection of {name:?}"
        );
    }
}

#[test]
fn hyphen_and_underscore_accepted() {
    assert!(validate_channel("my-channel_1").is_ok());
    assert!(validate_channel("-").is_ok());
    assert!(validate_channel("_").is_ok());
}

#[test]
fn unicode_letters_accepted() {
    assert!(validate_channel("caf\u{e9}").is_ok());
    assert!(validate_channel("\u{4e2d}\u{6587}").is_ok());
}

#[test]
fn entry_with_prefix_and_suffix_yields_name() {
    assert_eq!(channel_of_entry("murmur-work.sock"), Some("work".to_string()));
    assert_eq!(channel_of_entry("murmur-my-channel_1.sock"), Some("my-channel_1".to_string()));
}

#[test]
fn entry_with_empty_name_yields_empty() {
    assert_eq!(channel_of_entry("murmur-.sock"), Some(String::new()));
}

#[test]
fn unrelated_entries_yield_nothing() {
    assert_eq!(channel_of_entry("other.txt"), None);
    assert_eq!(channel_of_entry("murmur-x.txt"), None);
    assert_eq!(channel_of_entry("xmurmur-x.sock"), None);
    assert_eq!(channel_of_entry("murmur-a"), None);
    assert_eq!(channel_of_entry(".sock"), None);
    assert_eq!(channel_of_entry(""), None);
}

#[test]
fn resolved_path_entry_lists_back_to_name() {
    let path = socket_path("events").unwrap();
    let entry = path.strip_prefix("/tmp/").unwrap();
    assert_eq!(channel_of_entry(entry), Some("events".to_string()));
}
