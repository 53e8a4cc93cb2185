use guild_cache::interactions::{has_user_permission, user_has_nitro, Component, Embed, InteractionError, PremiumType, Response, User, EPHEMERAL};
use guild_cache::mentions::{get_channel_mention_ids, get_role_mention_ids, get_user_mention_ids, parse_id};

fn plain_user() -> User {
    User { id: 1, bot: false, premium_type: None, public_flags: None, banner: None, avatar: None }
}

#[test]
fn nitro_detection() {
    assert!(!user_has_nitro(&plain_user()));
    assert!(!user_has_nitro(&User { premium_type: Some(PremiumType::NoPremium), ..plain_user() }));
    assert!(user_has_nitro(&User { premium_type: Some(PremiumType::Nitro), ..plain_user() }));
    assert!(user_has_nitro(&User { banner: Some("b".to_string()), ..plain_user() }));
    assert!(user_has_nitro(&User { public_flags: Some(512), ..plain_user() }));
    assert!(!user_has_nitro(&User { public_flags: Some(256), ..plain_user() }));
    assert!(user_has_nitro(&User { avatar: Some("a_123".to_string()), ..plain_user() }));
    assert!(!user_has_nitro(&User { avatar: Some("b_123".to_string()), ..plain_user() }));
    assert!(!user_has_nitro(&User { avatar: Some("a".to_string()), ..plain_user() }));
}

#[test]
fn response_builder() {
    let r = Response::direct();
    assert!(r.content.is_none() && r.flags.is_none() && r.embeds.is_empty() && r.components.is_none());
    let r = Response::ephemeral().flag(4).content("hi".to_string());
    assert_eq!(r.flags, Some(EPHEMERAL | 4));
    assert_eq!(r.content.as_deref(), Some("hi"));
    let r = r
        .embed(Embed { payload: vec![1] })
        .components(vec![Component { payload: vec![2] }])
        .components(vec![Component { payload: vec![3] }]);
    assert_eq!(r.embeds.len(), 1);
    let comps: Vec<u8> = r.components.unwrap().iter().map(|c| c.payload[0]).collect();
    assert_eq!(comps, vec![2, 3]);
}

#[test]
fn user_permission_check() {
    assert!(has_user_permission(Some(0b1110), 0b0110));
    assert!(!has_user_permission(Some(0b1000), 0b0110));
    assert!(!has_user_permission(None, 0));
}

#[test]
fn interaction_error_variants() {
    let e = InteractionError::MissingArgument("user".to_string());
    assert_eq!(e.clone(), InteractionError::MissingArgument("user".to_string()));
    assert_ne!(InteractionError::NotInGuild, InteractionError::UnknownCommand);
}

#[test]
fn mention_ids() {
    assert_eq!(get_user_mention_ids("hi <@123> and <@!456>, not <@&7>"), vec![123, 456]);
    assert_eq!(get_role_mention_ids("<@&7> <@8> <@&9>"), vec![7, 9]);
    assert_eq!(get_channel_mention_ids("<@#11> text"), vec![11]);
    assert!(get_user_mention_ids("no mentions").is_empty());
    assert_eq!(get_user_mention_ids("<@99999999999999999999> <@5>"), vec![5]);
}

#[test]
fn decimal_ids() {
    assert_eq!(parse_id("0"), Some(0));
    assert_eq!(parse_id("18446744073709551615"), Some(u64::MAX));
    assert_eq!(parse_id("18446744073709551616"), None);
    assert_eq!(parse_id(""), None);
    assert_eq!(parse_id("12a"), None);
}
