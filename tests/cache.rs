use guild_cache::ancillary::{CachedMessage, CachedVoiceState, GuildConfig, MusicQueue, OnlineStatus, ResumeState, VoiceStateRecord};
use guild_cache::guild::{CacheError, CachedGuild};
use guild_cache::keys::{CacheKey, GuildKey};
use guild_cache::permissions::{permission_role_ids, RoleSet, ADMINISTRATOR, ALL_PERMISSIONS, SEND_MESSAGES};
use guild_cache::records::{ChannelRecord, GuildRecord, MessageRecord, RoleRecord};
use guild_cache::store::{Command, Pipeline};
use std::collections::{HashMap, HashSet};

enum Entry {
    Text(Vec<u8>),
    Hash(HashMap<Vec<u8>, Vec<u8>>),
    Members(HashSet<Vec<u8>>),
}

#[derive(Debug, PartialEq)]
enum Reply {
    Done,
    Value(Option<Vec<u8>>),
    Values(Vec<Option<Vec<u8>>>),
    Fields(Vec<(Vec<u8>, Vec<u8>)>),
    Flag(bool),
}

/// A store in memory that follows the commands' documented behaviour.
#[derive(Default)]
struct MemStore {
    entries: HashMap<Vec<u8>, Entry>,
    expires: HashMap<Vec<u8>, u64>,
    now: u64,
}

impl MemStore {
    fn live(&self, k: &[u8]) -> Option<&Entry> {
        match self.expires.get(k) {
            Some(t) if *t <= self.now => None,
            _ => self.entries.get(k),
        }
    }

    fn purge(&mut self, k: &[u8]) {
        if self.live(k).is_none() {
            self.entries.remove(k);
            self.expires.remove(k);
        }
    }

    fn run(&mut self, c: &Command) -> Reply {
        match c {
            Command::Del(ks) => {
                for k in ks {
                    self.entries.remove(k);
                    self.expires.remove(k);
                }
                Reply::Done
            }
            Command::Get(k) => match self.live(k) {
                Some(Entry::Text(v)) => Reply::Value(Some(v.clone())),
                _ => Reply::Value(None),
            },
            Command::Put(k, v) => {
                self.entries.insert(k.clone(), Entry::Text(v.clone()));
                self.expires.remove(k);
                Reply::Done
            }
            Command::SetEx(k, v, t) => {
                self.entries.insert(k.clone(), Entry::Text(v.clone()));
                self.expires.insert(k.clone(), self.now + t);
                Reply::Done
            }
            Command::HGet(k, fs) => Reply::Values(
                fs.iter()
                    .map(|f| match self.live(k) {
                        Some(Entry::Hash(h)) => h.get(f).cloned(),
                        _ => None,
                    })
                    .collect(),
            ),
            Command::HGetAll(k) => match self.live(k) {
                Some(Entry::Hash(h)) => {
                    let mut v: Vec<(Vec<u8>, Vec<u8>)> =
                        h.iter().map(|(a, b)| (a.clone(), b.clone())).collect();
                    v.sort();
                    Reply::Fields(v)
                }
                _ => Reply::Fields(vec![]),
            },
            Command::HSet(k, f, v) => {
                self.purge(k);
                let e = self.entries.entry(k.clone()).or_insert_with(|| Entry::Hash(HashMap::new()));
                if let Entry::Hash(h) = e {
                    h.insert(f.clone(), v.clone());
                }
                Reply::Done
            }
            Command::HSetMultiple(k, ps) => {
                for (n, v) in ps {
                    self.run(&Command::HSet(k.clone(), n.to_string().into_bytes(), v.clone()));
                }
                Reply::Done
            }
            Command::HDel(k, f) => {
                if let Some(Entry::Hash(h)) = self.entries.get_mut(k) {
                    h.remove(f);
                }
                Reply::Done
            }
            Command::SAdd(k, ms) => {
                self.purge(k);
                let e = self.entries.entry(k.clone()).or_insert_with(|| Entry::Members(HashSet::new()));
                if let Entry::Members(s) = e {
                    s.extend(ms.iter().cloned());
                }
                Reply::Done
            }
            Command::SIsMember(k, m) => Reply::Flag(match self.live(k) {
                Some(Entry::Members(s)) => s.contains(m),
                _ => false,
            }),
            Command::Expire(k, t) => {
                if self.live(k).is_some() {
                    self.expires.insert(k.clone(), self.now + t);
                }
                Reply::Done
            }
        }
    }

    fn run_all(&mut self, p: &Pipeline) -> Vec<Reply> {
        p.commands.iter().map(|c| self.run(c)).collect()
    }
}

fn role(id: u64, position: i64, permissions: u64) -> RoleRecord {
    RoleRecord { role_id: id, name: format!("role{}", id).into_bytes(), position, permissions }
}

fn guild(id: u64, owner: u64) -> GuildRecord {
    GuildRecord {
        id,
        name: b"Guild".to_vec(),
        features: vec![b"VERIFIED".to_vec(), b"COMMUNITY".to_vec()],
        owner_id: owner,
        vanity_url_code: Some(b"vanity".to_vec()),
    }
}

fn message() -> MessageRecord {
    MessageRecord {
        id: 77,
        channel_id: 5,
        guild_id: Some(9),
        content: b"hello".to_vec(),
        author_id: 3,
        author_name: b"alice".to_vec(),
        discriminator: 1234,
        bot: false,
        avatar: Some(b"a_hash".to_vec()),
    }
}

fn role_eq(a: &RoleRecord, b: &RoleRecord) -> bool {
    a.role_id == b.role_id && a.name == b.name && a.position == b.position && a.permissions == b.permissions
}

#[test]
fn role_record_round_trip() {
    let r = role(42, -3, 0xDEAD_BEEF);
    let back = RoleRecord::decode(&r.encode()).unwrap();
    assert!(role_eq(&r, &back));
}

#[test]
fn channel_record_round_trip() {
    let c = ChannelRecord { channel_id: u64::MAX, name: b"general".to_vec() };
    let back = ChannelRecord::decode(&c.encode()).unwrap();
    assert_eq!(back.channel_id, u64::MAX);
    assert_eq!(back.name, b"general".to_vec());
}

#[test]
fn guild_record_round_trip() {
    let g = guild(1, 2);
    let back = GuildRecord::decode(&g.encode()).unwrap();
    assert_eq!(back.id, 1);
    assert_eq!(back.owner_id, 2);
    assert_eq!(back.name, g.name);
    assert_eq!(back.features, g.features);
    assert_eq!(back.vanity_url_code, g.vanity_url_code);
    let empty = GuildRecord { id: 0, name: vec![], features: vec![], owner_id: 0, vanity_url_code: None };
    let back = GuildRecord::decode(&empty.encode()).unwrap();
    assert!(back.features.is_empty() && back.vanity_url_code.is_none());
}

#[test]
fn message_record_round_trip() {
    let m = message();
    let back = MessageRecord::decode(&m.encode()).unwrap();
    assert_eq!(back.id, 77);
    assert_eq!(back.guild_id, Some(9));
    assert_eq!(back.content, b"hello".to_vec());
    assert_eq!(back.discriminator, 1234);
    assert_eq!(back.avatar, Some(b"a_hash".to_vec()));
}

#[test]
fn malformed_records_are_rejected() {
    let bytes = role(1, 1, 1).encode();
    assert!(RoleRecord::decode(&bytes[..bytes.len() - 1].to_vec()).is_none());
    assert!(GuildRecord::decode(&vec![1, 2, 3]).is_none());
    assert!(MessageRecord::decode(&vec![]).is_none());
    let mut bad_flag = guild(1, 2).encode();
    let n = bad_flag.len();
    bad_flag.truncate(n - 15);
    bad_flag.push(7);
    assert!(GuildRecord::decode(&bad_flag).is_none());
}

#[test]
fn records_tolerate_schema_changes() {
    let mut newer = role(5, 1, 1).encode();
    newer.extend([9, 9, 9]);
    assert_eq!(RoleRecord::decode(&newer).unwrap().role_id, 5);
    let full = guild(1, 2).encode();
    let older = full[..full.len() - 15].to_vec();
    let back = GuildRecord::decode(&older).unwrap();
    assert_eq!(back.owner_id, 2);
    assert!(back.vanity_url_code.is_none());
    let mut m = message();
    m.avatar = None;
    let mut bytes = m.encode();
    bytes.pop();
    let back = MessageRecord::decode(&bytes).unwrap();
    assert!(back.avatar.is_none());
    assert!(!back.bot);
}

#[test]
fn role_encoding_exact_bytes() {
    let r = RoleRecord { role_id: 1, name: b"a".to_vec(), position: 2, permissions: 3 };
    let mut expected = vec![0, 0, 0, 0, 0, 0, 0, 1];
    expected.extend([0, 0, 0, 0, 0, 0, 0, 1, b'a']);
    expected.extend([0, 0, 0, 0, 0, 0, 0, 2]);
    expected.extend([0, 0, 0, 0, 0, 0, 0, 3]);
    assert_eq!(r.encode(), expected);
}

#[test]
fn cache_keys_are_distinct() {
    let keys = vec![
        CacheKey::GuildConfigs(1).encode(),
        CacheKey::Guild(1).encode(),
        CacheKey::Messages(1, 2).encode(),
        CacheKey::Messages(2, 1).encode(),
        CacheKey::VoiceState(1).encode(),
        CacheKey::OnlineStatus(1).encode(),
        CacheKey::ResumeState(b"shards".to_vec()).encode(),
        CacheKey::MusicQueue(1).encode(),
        CacheKey::Guild(2).encode(),
    ];
    let set: HashSet<Vec<u8>> = keys.iter().cloned().collect();
    assert_eq!(set.len(), keys.len());
    assert_eq!(CacheKey::Guild(258).encode(), vec![1, 0, 0, 0, 0, 0, 0, 1, 2]);
}

#[test]
fn guild_keys_round_trip_and_reject_unknown() {
    for k in [GuildKey::Guild, GuildKey::Role(7), GuildKey::Channel(7)] {
        assert_eq!(GuildKey::decode(&k.encode()), Some(k));
    }
    assert_ne!(GuildKey::Role(7).encode(), GuildKey::Channel(7).encode());
    assert_eq!(GuildKey::Guild.encode(), vec![1]);
    assert_eq!(GuildKey::decode(&vec![9, 0, 0, 0, 0, 0, 0, 0, 1]), None);
    assert_eq!(GuildKey::decode(&vec![2, 0]), None);
    assert_eq!(GuildKey::Channel(3).prefix(), 3);
}

fn permissions_of(store: &mut MemStore, guild_id: u64, user: u64, roles: &[u64]) -> u64 {
    let reply = store.run(&CachedGuild::fetch_resource::<GuildRecord>(guild_id, guild_id));
    let guild_bytes = match reply {
        Reply::Values(mut v) => v.remove(0),
        _ => unreachable!(),
    };
    let g = CachedGuild::resource_from_reply::<GuildRecord>(guild_bytes).unwrap();
    let ids = permission_role_ids(guild_id, &roles.to_vec());
    let replies = match CachedGuild::fetch_resources::<RoleRecord>(guild_id, &ids) {
        Some(c) => match store.run(&c) {
            Reply::Values(v) => v,
            _ => unreachable!(),
        },
        None => vec![],
    };
    let set = CachedGuild::role_set(replies).unwrap();
    CachedGuild::guild_permissions(g.as_ref(), user, &set)
}

fn scenario_store() -> MemStore {
    let mut store = MemStore::default();
    let g = guild(100, 1);
    let roles = vec![role(11, 1, SEND_MESSAGES), role(12, 2, ADMINISTRATOR), role(100, 0, 0)];
    let channels = vec![ChannelRecord { channel_id: 50, name: b"general".to_vec() }];
    store.run_all(&CachedGuild::save(&g, &channels, &roles));
    store
}

#[test]
fn scenario_member_with_send_messages_only() {
    let mut store = scenario_store();
    assert_eq!(permissions_of(&mut store, 100, 2, &[11]), SEND_MESSAGES);
}

#[test]
fn scenario_member_with_administrator_role() {
    let mut store = scenario_store();
    assert_eq!(permissions_of(&mut store, 100, 3, &[11, 12]), ALL_PERMISSIONS);
}

#[test]
fn owner_without_roles_has_everything() {
    let mut store = scenario_store();
    assert_eq!(permissions_of(&mut store, 100, 1, &[]), ALL_PERMISSIONS);
}

#[test]
fn unknown_guild_grants_nothing() {
    let mut store = scenario_store();
    assert_eq!(permissions_of(&mut store, 999, 1, &[11, 12]), 0);
}

#[test]
fn administrator_bit_alone_grants_everything() {
    let set = RoleSet::new(vec![role(1, 1, ADMINISTRATOR)]);
    assert_eq!(set.guild_permissions(), ALL_PERMISSIONS);
    let set = RoleSet::new(vec![role(1, 1, 1), role(2, 1, 4)]);
    assert_eq!(set.guild_permissions(), 5);
    assert_eq!(RoleSet::new(vec![]).guild_permissions(), 0);
    let set = RoleSet::new(vec![role(1, 1, u64::MAX ^ ADMINISTRATOR)]);
    assert_eq!(set.guild_permissions(), ALL_PERMISSIONS ^ ADMINISTRATOR);
}

#[test]
fn highest_role_and_ordering() {
    let a = RoleSet::new(vec![role(1, 1, 0), role(2, 5, 0), role(3, 2, 0)]);
    assert_eq!(a.highest().unwrap().role_id, 2);
    let b = RoleSet::new(vec![role(4, 3, 0)]);
    let empty = RoleSet::new(vec![]);
    assert!(empty.highest().is_none());
    assert_eq!(a.compare(&b), std::cmp::Ordering::Greater);
    assert_eq!(b.compare(&a), std::cmp::Ordering::Less);
    assert_eq!(empty.compare(&b), std::cmp::Ordering::Less);
    assert_eq!(b.compare(&empty), std::cmp::Ordering::Greater);
    assert_eq!(empty.compare(&empty), std::cmp::Ordering::Equal);
}

#[test]
fn full_save_replaces_container_atomically() {
    let mut store = MemStore::default();
    store.run(&CachedGuild::save_resource(100, 99, &role(99, 1, 1)));
    let g = guild(100, 1);
    let roles = vec![role(11, 1, 1), role(12, 2, 2)];
    let channels = vec![ChannelRecord { channel_id: 50, name: b"general".to_vec() }];
    let pipe = CachedGuild::save(&g, &channels, &roles);
    assert!(pipe.atomic);
    assert_eq!(pipe.commands.len(), 5);
    assert!(matches!(pipe.commands[0], Command::Del(_)));
    store.run_all(&pipe);
    let fields = match store.run(&Command::HGetAll(CacheKey::Guild(100).encode())) {
        Reply::Fields(f) => f,
        _ => unreachable!(),
    };
    assert_eq!(fields.len(), 4);
    let all_roles = CachedGuild::resources_of_kind_from_reply::<RoleRecord>(fields.clone());
    let ids: Vec<u64> = all_roles.iter().map(|(id, _)| *id).collect();
    assert_eq!(ids, vec![11, 12]);
    let all_channels = CachedGuild::resources_of_kind_from_reply::<ChannelRecord>(fields);
    assert_eq!(all_channels.len(), 1);
    assert_eq!(all_channels[0].0, 50);
}

#[test]
fn scan_skips_bad_entries() {
    let fields = vec![
        (GuildKey::Role(1).encode(), role(1, 1, 1).encode()),
        (GuildKey::Role(2).encode(), vec![1, 2, 3]),
        (vec![42], vec![]),
        (GuildKey::Role(3).encode(), role(3, 3, 3).encode()),
    ];
    let roles = CachedGuild::resources_of_kind_from_reply::<RoleRecord>(fields);
    let ids: Vec<u64> = roles.iter().map(|(id, _)| *id).collect();
    assert_eq!(ids, vec![1, 3]);
}

#[test]
fn fetch_many_with_no_ids_sends_nothing() {
    assert!(CachedGuild::fetch_resources::<RoleRecord>(1, &vec![]).is_none());
    assert!(CachedGuild::resources_from_reply::<RoleRecord>(vec![]).unwrap().is_empty());
}

#[test]
fn fetch_many_omits_absent_records() {
    let mut store = MemStore::default();
    store.run(&CachedGuild::save_resource(1, 10, &role(10, 1, 1)));
    store.run(&CachedGuild::save_resource(1, 30, &role(30, 1, 1)));
    let cmd = CachedGuild::fetch_resources::<RoleRecord>(1, &vec![10, 20, 30]).unwrap();
    let replies = match store.run(&cmd) {
        Reply::Values(v) => v,
        _ => unreachable!(),
    };
    assert_eq!(replies.len(), 3);
    let roles = CachedGuild::resources_from_reply::<RoleRecord>(replies).unwrap();
    let ids: Vec<u64> = roles.iter().map(|r| r.role_id).collect();
    assert_eq!(ids, vec![10, 30]);
}

#[test]
fn single_fetch_absent_and_corrupt() {
    assert!(matches!(CachedGuild::resource_from_reply::<RoleRecord>(None), Ok(None)));
    assert_eq!(
        CachedGuild::resource_from_reply::<RoleRecord>(Some(vec![0])).err(),
        Some(CacheError::Decode)
    );
    assert_eq!(
        CachedGuild::resources_from_reply::<RoleRecord>(vec![None, Some(vec![5])]).err(),
        Some(CacheError::Decode)
    );
}

#[test]
fn delete_resource_and_guild() {
    let mut store = MemStore::default();
    store.run(&CachedGuild::save_resource(1, 10, &role(10, 1, 1)));
    store.run(&CachedGuild::delete_resource::<RoleRecord>(1, 10));
    let r = store.run(&CachedGuild::fetch_resource::<RoleRecord>(1, 10));
    assert_eq!(r, Reply::Values(vec![None]));
    store.run(&CachedGuild::save_resource(1, 10, &role(10, 1, 1)));
    store.run(&CachedGuild::delete(1));
    let r = store.run(&CachedGuild::fetch_resource::<RoleRecord>(1, 10));
    assert_eq!(r, Reply::Values(vec![None]));
}

#[test]
fn presence_membership() {
    let mut store = MemStore::default();
    let mut status = OnlineStatus::new();
    status.set_online(7, &vec![1, 2]);
    let pipe = status.build();
    assert!(pipe.atomic);
    store.run_all(&pipe);
    let users = vec![1, 3];
    let replies: Vec<bool> = store
        .run_all(&OnlineStatus::find_online(7, &users))
        .into_iter()
        .map(|r| r == Reply::Flag(true))
        .collect();
    assert_eq!(OnlineStatus::online_from_replies(&users, &replies), vec![1]);
}

#[test]
fn presence_is_replaced_and_expires() {
    let mut store = MemStore::default();
    let mut status = OnlineStatus::new();
    status.set_online(7, &vec![1, 2]);
    status.set_online(7, &vec![3]);
    store.run_all(&status.build());
    let replies: Vec<Reply> = store.run_all(&OnlineStatus::find_online(7, &vec![1, 3]));
    assert_eq!(replies, vec![Reply::Flag(false), Reply::Flag(true)]);
    store.now += 3600;
    let replies: Vec<Reply> = store.run_all(&OnlineStatus::find_online(7, &vec![3]));
    assert_eq!(replies, vec![Reply::Flag(false)]);
}

#[test]
fn message_ttl_expiry() {
    let mut store = MemStore::default();
    store.run(&CachedMessage::new(message()).flush());
    store.now = 86399;
    let reply = match store.run(&CachedMessage::fetch(5, 77)) {
        Reply::Value(v) => v,
        _ => unreachable!(),
    };
    let m = CachedMessage::from_reply(5, 77, reply).unwrap().unwrap();
    assert_eq!((m.id, m.channel_id), (77, 5));
    assert_eq!(m.content, b"hello".to_vec());
    store.now = 86400;
    let reply = match store.run(&CachedMessage::fetch(5, 77)) {
        Reply::Value(v) => v,
        _ => unreachable!(),
    };
    assert!(reply.is_none());
    assert!(CachedMessage::from_reply(5, 77, reply).unwrap().is_none());
}

#[test]
fn message_payload_omits_ids() {
    match CachedMessage::new(message()).flush() {
        Command::SetEx(key, value, ttl) => {
            assert_eq!(key, CacheKey::Messages(5, 77).encode());
            assert_eq!(ttl, 86400);
            let stored = MessageRecord::decode(&value).unwrap();
            assert_eq!((stored.id, stored.channel_id), (0, 0));
        }
        _ => panic!("unexpected command"),
    }
}

#[test]
fn message_deletes() {
    match CachedMessage::bulk_delete(5, &vec![1, 2]) {
        Command::Del(keys) => assert_eq!(
            keys,
            vec![CacheKey::Messages(5, 1).encode(), CacheKey::Messages(5, 2).encode()]
        ),
        _ => panic!("unexpected command"),
    }
    match CachedMessage::delete(5, 1) {
        Command::Del(keys) => assert_eq!(keys, vec![CacheKey::Messages(5, 1).encode()]),
        _ => panic!("unexpected command"),
    }
}

#[test]
fn voice_states() {
    let mut store = MemStore::default();
    let states = vec![
        VoiceStateRecord { guild_id: Some(4), channel_id: Some(40), user_id: 1 },
        VoiceStateRecord { guild_id: Some(4), channel_id: None, user_id: 2 },
    ];
    let pipe = CachedVoiceState::update_guild(4, &states);
    assert!(pipe.atomic);
    assert_eq!(pipe.commands.len(), 3);
    store.run_all(&pipe);
    let r = store.run(&CachedVoiceState::get_channel(4, 1));
    assert_eq!(r, Reply::Values(vec![Some(40u64.to_be_bytes().to_vec())]));
    store.run(&CachedVoiceState::save(&VoiceStateRecord { guild_id: Some(4), channel_id: None, user_id: 1 }));
    assert_eq!(store.run(&CachedVoiceState::get_channels(4)), Reply::Fields(vec![]));
    store.run(&CachedVoiceState::clear_guild(4));
    assert!(store.live(&CacheKey::VoiceState(4).encode()).is_none());
}

#[test]
fn guild_config_kinds_are_independent() {
    let mut store = MemStore::default();
    store.run(&GuildConfig::set(8, 1, vec![1, 1]));
    store.run(&GuildConfig::set(8, 2, vec![2, 2]));
    store.run(&GuildConfig::set(8, 1, vec![3]));
    let get = |store: &mut MemStore, sub: u8| match store.run(&GuildConfig::fetch(8, sub)) {
        Reply::Values(mut v) => GuildConfig::fetch_or_default(v.remove(0)),
        _ => unreachable!(),
    };
    assert_eq!(get(&mut store, 1), vec![3]);
    assert_eq!(get(&mut store, 2), vec![2, 2]);
    assert_eq!(get(&mut store, 3), Vec::<u8>::new());
}

#[test]
fn resume_sessions_best_effort() {
    let cmd = ResumeState::save_sessions(&b"bot".to_vec(), vec![(0, Some(b"{}".to_vec())), (1, None), (2, Some(b"x".to_vec()))]);
    match &cmd {
        Command::HSetMultiple(key, pairs) => {
            assert_eq!(*key, CacheKey::ResumeState(b"bot".to_vec()).encode());
            assert_eq!(*pairs, vec![(0, b"{}".to_vec()), (2, b"x".to_vec())]);
        }
        _ => panic!("unexpected command"),
    }
    let kept = ResumeState::keep_parsed(vec![(3u64, Some("a")), (4, None), (5, Some("b"))]);
    assert_eq!(kept, vec![(3, "a"), (5, "b")]);
    assert!(matches!(ResumeState::get_sessions(&b"bot".to_vec()), Command::HGetAll(_)));
}

#[test]
fn music_queue_save_and_clear() {
    let mut store = MemStore::default();
    store.run(&MusicQueue::save(3, vec![9, 9]));
    let key = CacheKey::MusicQueue(3).encode();
    assert_eq!(store.run(&Command::Get(key.clone())), Reply::Value(Some(vec![9, 9])));
    store.run(&MusicQueue::clear(3));
    assert_eq!(store.run(&Command::Get(key)), Reply::Value(None));
}

#[test]
fn fetch_all_resources_reads_whole_container() {
    match CachedGuild::fetch_all_resources(6) {
        Command::HGetAll(k) => assert_eq!(k, CacheKey::Guild(6).encode()),
        _ => panic!("unexpected command"),
    }
    let status: OnlineStatus = Default::default();
    assert!(status.build().commands.is_empty());
}
