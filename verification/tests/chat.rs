use tfs_core::chat::{ChatChannel, ChatRegistry, CHANNEL_GUILD, CHANNEL_PARTY, CHANNEL_PRIVATE};

fn public(id: u16, name: &str) -> ChatChannel {
    let mut c = ChatChannel::new(id, name.to_string());
    c.public_channel = true;
    c
}

#[test]
fn users_join_and_leave_channels() {
    let mut chat = ChatRegistry::new();
    chat.add_normal_channel(public(5, "Game Chat"));
    assert!(chat.add_user_to_channel(5, 10));
    assert!(chat.is_user_in_channel(5, 10));
    assert!(!chat.add_user_to_channel(9, 10));
    assert!(chat.remove_user_from_channel(5, 10));
    assert!(!chat.remove_user_from_channel(5, 10));
    assert!(!chat.is_user_in_channel(5, 10));
}

#[test]
fn logout_leaves_every_channel() {
    let mut chat = ChatRegistry::new();
    chat.add_normal_channel(public(5, "Game Chat"));
    chat.next_private_channel_id = 100;
    let id = chat.create_private_channel("Mine".to_string(), 10);
    assert_eq!(id, 100);
    assert!(chat.add_user_to_channel(5, 10));
    assert!(chat.add_user_to_channel(100, 10));
    chat.remove_user_from_all_channels(10);
    assert!(!chat.is_user_in_channel(5, 10));
    assert!(!chat.is_user_in_channel(100, 10));
}

#[test]
fn guild_and_party_channels_are_made_on_demand() {
    let mut chat = ChatRegistry::new();
    assert_eq!(chat.create_channel(CHANNEL_GUILD, 1, None, None), None);
    assert_eq!(chat.create_channel(CHANNEL_GUILD, 1, Some(7), None), Some(CHANNEL_GUILD));
    assert_eq!(chat.get_channel(CHANNEL_GUILD).unwrap().name, "Guild Channel");
    assert_eq!(chat.create_channel(CHANNEL_PARTY, 1, None, Some(3)), Some(CHANNEL_PARTY));
    assert_eq!(chat.get_channel(CHANNEL_PARTY).unwrap().name, "Party");
    assert_eq!(chat.create_channel(42, 1, Some(7), Some(3)), None);
}

#[test]
fn private_channel_names_carry_their_id() {
    let mut chat = ChatRegistry::new();
    chat.next_private_channel_id = 300;
    assert_eq!(chat.create_channel(CHANNEL_PRIVATE, 9, None, None), Some(300));
    assert_eq!(chat.get_private_channel(300).unwrap().base.name, "Private Channel 300");
    assert_eq!(chat.get_private_channel(300).unwrap().owner, 9);
    assert_eq!(chat.next_private_channel_id, 301);
    assert!(chat.invite_to_private_channel(300, 55));
    assert!(chat.is_invited_to_private_channel(300, 55));
    assert!(chat.exclude_from_private_channel(300, 55));
    assert!(!chat.is_invited_to_private_channel(300, 55));
    assert!(!chat.invite_to_private_channel(301, 55));
}

#[test]
fn channel_list_is_sorted_and_filtered() {
    let mut chat = ChatRegistry::new();
    chat.add_normal_channel(public(7, "Help"));
    chat.add_normal_channel(public(5, "Game Chat"));
    chat.add_normal_channel(ChatChannel::new(8, "Hidden".to_string()));
    chat.next_private_channel_id = 200;
    chat.create_private_channel("Mine".to_string(), 10);
    chat.create_private_channel("Theirs".to_string(), 11);
    chat.invite_to_private_channel(201, 77);
    let list = chat.get_channel_list(10, Some(77), Some(4), Some(10));
    let ids: Vec<u16> = list.iter().map(|(id, _)| *id).collect();
    assert_eq!(ids, vec![0, 1, 5, 7, 200, 201]);
    assert_eq!(list[0].1, "Guild Channel");
    assert_eq!(list[1].1, "Party");
    assert_eq!(list[4].1, "Mine");
    // Without a guid no private channel is listed.
    let list = chat.get_channel_list(10, None, None, None);
    let ids: Vec<u16> = list.iter().map(|(id, _)| *id).collect();
    assert_eq!(ids, vec![5, 7]);
}

#[test]
fn guild_lookup_takes_the_smallest_guild_and_round_trips() {
    let mut chat = ChatRegistry::new();
    assert_eq!(chat.create_channel(CHANNEL_GUILD, 1, Some(9), None), Some(CHANNEL_GUILD));
    assert_eq!(chat.create_channel(CHANNEL_GUILD, 1, Some(4), None), Some(CHANNEL_GUILD));
    assert_eq!(chat.create_channel(CHANNEL_GUILD, 1, Some(6), None), Some(CHANNEL_GUILD));
    assert!(chat.add_user_to_channel(CHANNEL_GUILD, 77));
    assert!(chat.is_user_in_channel(CHANNEL_GUILD, 77));
    assert!(chat.guild_channels[&4].users.contains(&77));
    assert!(!chat.guild_channels[&9].users.contains(&77));
    assert!(!chat.guild_channels[&6].users.contains(&77));
    assert!(chat.remove_user_from_channel(CHANNEL_GUILD, 77));
    assert!(chat.guild_channels[&4].users.is_empty());
    assert!(!chat.remove_user_from_channel(CHANNEL_GUILD, 77));
}

#[test]
fn party_lookup_takes_the_smallest_leader() {
    let mut chat = ChatRegistry::new();
    assert_eq!(chat.create_channel(CHANNEL_PARTY, 1, None, Some(30)), Some(CHANNEL_PARTY));
    assert_eq!(chat.create_channel(CHANNEL_PARTY, 1, None, Some(12)), Some(CHANNEL_PARTY));
    assert!(chat.add_user_to_channel(CHANNEL_PARTY, 5));
    assert!(chat.party_channels[&12].users.contains(&5));
    assert!(chat.party_channels[&30].users.is_empty());
    assert!(chat.is_user_in_channel(CHANNEL_PARTY, 5));
}
