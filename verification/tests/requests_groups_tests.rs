use cage::digest::md5_hex;
use cage::order::sort_strings;
use cage::requests::{AuthorityTier, MultiRecipientConfig, RecipientGroup};

#[test]
fn md5_known_value() {
    assert_eq!(md5_hex("abc"), "900150983cd24fb0d6963f7d28e17f72");
    assert_eq!(md5_hex(""), "d41d8cd98f00b204e9800998ecf8427e");
}

#[test]
fn sorting_is_lexicographic() {
    let v = vec!["pear".to_string(), "apple".to_string(), "fig".to_string(), "app".to_string()];
    assert_eq!(sort_strings(&v), vec!["app", "apple", "fig", "pear"]);
}

#[test]
fn group_hash_ignores_insertion_order() {
    let mut a = RecipientGroup::new("team".to_string());
    a.add_recipient("age1x".to_string());
    a.add_recipient("age1y".to_string());
    let mut b = RecipientGroup::new("team".to_string());
    b.add_recipient("age1y".to_string());
    b.add_recipient("age1x".to_string());
    assert_eq!(a.group_hash(), b.group_hash());
    assert_eq!(a.len(), 2);
    assert!(a.contains_recipient("age1x"));
    assert!(a.remove_recipient("age1x"));
    assert!(!a.contains_recipient("age1x"));
    assert_ne!(a.group_hash(), b.group_hash());
}

#[test]
fn authority_tiers_round_trip() {
    for tier in [
        AuthorityTier::Skull,
        AuthorityTier::Master,
        AuthorityTier::Repository,
        AuthorityTier::Ignition,
        AuthorityTier::Distro,
    ] {
        assert_eq!(AuthorityTier::from_str(tier.as_str()), Some(tier));
    }
    assert_eq!(AuthorityTier::from_str("x"), Some(AuthorityTier::Skull));
    assert_eq!(AuthorityTier::from_str("Q"), None);
}

#[test]
fn multi_recipient_flattening() {
    let mut g1 = RecipientGroup::new("one".to_string());
    g1.add_recipient("k1".to_string());
    let mut g2 = RecipientGroup::new("two".to_string());
    g2.add_recipient("k2".to_string());
    g2.add_recipient("k3".to_string());
    let config = MultiRecipientConfig::new().with_primary_group(g1).add_group(g2);
    assert_eq!(config.total_recipients(), 3);
    assert_eq!(config.flatten_recipients(), vec!["k1", "k2", "k3"]);
}

#[test]
fn group_add_then_remove_restores() {
    let mut g = RecipientGroup::new("ops".to_string());
    g.add_recipient("age1a".to_string());
    g.add_recipient("age1b".to_string());
    g.add_recipient("age1a".to_string());
    assert_eq!(g.len(), 2);
    let before = g.recipients.clone();
    g.add_recipient("age1c".to_string());
    assert!(g.remove_recipient("age1c"));
    assert_eq!(g.recipients, before);
    assert!(g.remove_recipient("age1a"));
    assert!(!g.contains_recipient("age1a"));
    assert!(!g.remove_recipient("age1a"));
    assert_eq!(g.recipients, vec!["age1b".to_string()]);
}

#[test]
fn tier_letters_read_back_in_either_case() {
    for t in [AuthorityTier::Skull, AuthorityTier::Master, AuthorityTier::Repository, AuthorityTier::Ignition, AuthorityTier::Distro] {
        assert_eq!(AuthorityTier::from_str(t.as_str()), Some(t));
        assert_eq!(AuthorityTier::from_str(&t.as_str().to_lowercase()), Some(t));
    }
}
