use vstd::prelude::*;
use crate::bytes::{copy_bytes, push_u64, u64_bytes};
use crate::guild::{opt_bytes_view, CacheError};
use crate::keys::{cache_key_bytes, CacheKey, CacheKeyView};
use crate::records::{MessageRecord, MessageView};
use crate::store::{pairs_view, Command, CommandView, Pipeline};
use crate::wire::seq_view;

verus! {

/// Seconds for which a guild's presence set is kept.
pub const PRESENCE_TTL: u64 = 3600;
/// Seconds for which a cached message is kept.
pub const MESSAGE_TTL: u64 = 86400;

fn id_bytes(id: u64) -> (r: Vec<u8>)
    ensures
        r@ == u64_bytes(id),
{
    let mut r: Vec<u8> = Vec::new();
    push_u64(&mut r, id);
    r
}

fn ids_bytes(ids: &Vec<u64>) -> (r: Vec<Vec<u8>>)
    ensures
        seq_view(r@) == ids@.map_values(|id: u64| u64_bytes(id)),
{
    let mut r: Vec<Vec<u8>> = Vec::new();
    let mut i: usize = 0;
    while i < ids.len()
        invariant
            i <= ids@.len(),
            seq_view(r@) == ids@.subrange(0, i as int).map_values(|id: u64| u64_bytes(id)),
        decreases ids@.len() - i,
    {
        let ghost before = r@;
        r.push(id_bytes(ids[i]));
        assert(seq_view(r@) =~= seq_view(before).push(u64_bytes(ids@[i as int])));
        i = i + 1;
        assert(seq_view(r@) =~= ids@.subrange(0, i as int).map_values(|id: u64| u64_bytes(id)));
    }
    assert(ids@.subrange(0, i as int) =~= ids@);
    r
}

pub open spec fn presence_key(guild_id: u64) -> Seq<u8> {
    cache_key_bytes(CacheKeyView::OnlineStatus(guild_id))
}

pub open spec fn set_online_cmds(guild_id: u64, ids: Seq<u64>) -> Seq<CommandView> {
    seq![
        CommandView::Del(seq![presence_key(guild_id)]),
        CommandView::SAdd(presence_key(guild_id), ids.map_values(|id: u64| u64_bytes(id))),
        CommandView::Expire(presence_key(guild_id), PRESENCE_TTL),
    ]
}

/// Builds one atomic batch that replaces the presence sets of guilds.
pub struct OnlineStatus {
    pipeline: Pipeline,
}

impl Default for OnlineStatus {
    fn default() -> (r: OnlineStatus)
        ensures
            r.is_atomic(),
            r.cmds() == Seq::<CommandView>::empty(),
    {
        OnlineStatus { pipeline: Pipeline::new(true) }
    }
}

impl OnlineStatus {
    pub closed spec fn cmds(&self) -> Seq<CommandView> {
        self.pipeline.cmds()
    }

    pub closed spec fn is_atomic(&self) -> bool {
        self.pipeline.atomic
    }

    pub fn new() -> (r: OnlineStatus)
        ensures
            r.is_atomic(),
            r.cmds() == Seq::<CommandView>::empty(),
    {
        Self::default()
    }

    /// Replaces the guild's presence set with `online` and makes it expire
    /// after an hour.
    pub fn set_online(&mut self, guild_id: u64, online: &Vec<u64>)
        ensures
            final(self).is_atomic() == old(self).is_atomic(),
            final(self).cmds() == old(self).cmds() + set_online_cmds(guild_id, online@),
    {
        let mut del: Vec<Vec<u8>> = Vec::new();
        del.push(CacheKey::OnlineStatus(guild_id).encode());
        assert(seq_view(del@) =~= seq![presence_key(guild_id)]);
        self.pipeline.add(Command::Del(del));
        self.pipeline.add(Command::SAdd(CacheKey::OnlineStatus(guild_id).encode(), ids_bytes(online)));
        self.pipeline.add(Command::Expire(CacheKey::OnlineStatus(guild_id).encode(), PRESENCE_TTL));
        assert(self.pipeline.cmds() =~= old(self).cmds() + set_online_cmds(guild_id, online@));
    }

    pub fn build(self) -> (r: Pipeline)
        ensures
            r.atomic == self.is_atomic(),
            r.cmds() == self.cmds(),
    {
        self.pipeline
    }

    /// The membership checks for `users`, one per user, in order.
    pub fn find_online(guild_id: u64, users: &Vec<u64>) -> (r: Pipeline)
        ensures
            !r.atomic,
            r.cmds() == users@.map_values(
                |u: u64| CommandView::SIsMember(presence_key(guild_id), u64_bytes(u)),
            ),
    {
        let mut pipe = Pipeline::new(false);
        let mut i: usize = 0;
        while i < users.len()
            invariant
                i <= users@.len(),
                !pipe.atomic,
                pipe.cmds() == users@.subrange(0, i as int).map_values(
                    |u: u64| CommandView::SIsMember(presence_key(guild_id), u64_bytes(u)),
                ),
            decreases users@.len() - i,
        {
            pipe.add(Command::SIsMember(CacheKey::OnlineStatus(guild_id).encode(), id_bytes(users[i])));
            i = i + 1;
            assert(pipe.cmds() =~= users@.subrange(0, i as int).map_values(
                |u: u64| CommandView::SIsMember(presence_key(guild_id), u64_bytes(u)),
            ));
        }
        assert(users@.subrange(0, i as int) =~= users@);
        pipe
    }

    /// The users whose membership check came back true, in order.
    pub fn online_from_replies(users: &Vec<u64>, replies: &Vec<bool>) -> (r: Vec<u64>)
        requires
            users@.len() == replies@.len(),
        ensures
            r@ == kept(users@, replies@),
    {
        let mut r: Vec<u64> = Vec::new();
        let mut i: usize = 0;
        while i < users.len()
            invariant
                users@.len() == replies@.len(),
                i <= users@.len(),
                r@ == kept(users@.subrange(0, i as int), replies@.subrange(0, i as int)),
            decreases users@.len() - i,
        {
            assert(users@.subrange(0, i as int + 1).drop_last() =~= users@.subrange(0, i as int));
            assert(replies@.subrange(0, i as int + 1).drop_last() =~= replies@.subrange(0, i as int));
            if replies[i] {
                r.push(users[i]);
            }
            i = i + 1;
        }
        assert(users@.subrange(0, i as int) =~= users@);
        assert(replies@.subrange(0, i as int) =~= replies@);
        r
    }
}

/// The items of `xs` whose flag in `flags` is set, in order.
pub open spec fn kept<T>(xs: Seq<T>, flags: Seq<bool>) -> Seq<T>
    decreases xs.len(),
{
    if xs.len() == 0 || flags.len() == 0 {
        Seq::empty()
    } else if flags.last() {
        kept(xs.drop_last(), flags.drop_last()).push(xs.last())
    } else {
        kept(xs.drop_last(), flags.drop_last())
    }
}

pub open spec fn message_key(channel_id: u64, message_id: u64) -> Seq<u8> {
    cache_key_bytes(CacheKeyView::Messages(channel_id, message_id))
}

/// A message without its ids, as it is stored: the key carries them.
pub open spec fn stripped(m: MessageView) -> MessageView {
    MessageView { id: 0, channel_id: 0, ..m }
}

/// A message about to be cached.
pub struct CachedMessage {
    pub proto: MessageRecord,
}

impl CachedMessage {
    pub fn new(message: MessageRecord) -> (r: CachedMessage)
        ensures
            r.proto@ == message@,
    {
        CachedMessage { proto: message }
    }

    /// Stores the message for a day under its channel and id, without the
    /// ids in the stored bytes.
    pub fn flush(self) -> (r: Command)
        ensures
            r@ == CommandView::SetEx(
                message_key(self.proto.channel_id, self.proto.id),
                stripped(self.proto@).bytes(),
                MESSAGE_TTL,
            ),
    {
        let mut proto = self.proto;
        let key = CacheKey::Messages(proto.channel_id, proto.id).encode();
        proto.id = 0;
        proto.channel_id = 0;
        Command::SetEx(key, proto.encode(), MESSAGE_TTL)
    }

    /// The read of one cached message.
    pub fn fetch(channel_id: u64, message_id: u64) -> (r: Command)
        ensures
            r@ == CommandView::Get(message_key(channel_id, message_id)),
    {
        Command::Get(CacheKey::Messages(channel_id, message_id).encode())
    }

    /// Reads the answer to `fetch`, putting the ids from the key back.
    pub fn from_reply(channel_id: u64, message_id: u64, reply: Option<Vec<u8>>) -> (r: Result<Option<MessageRecord>, CacheError>)
        ensures
            match opt_bytes_view(reply) {
                None => r matches Ok(None),
                Some(b) => match MessageView::decode(b) {
                    Some(v) => r matches Ok(Some(x)) && x@ == (MessageView { id: message_id, channel_id, ..v }),
                    None => r == Err::<Option<MessageRecord>, CacheError>(CacheError::Decode),
                },
            },
    {
        match reply {
            None => Ok(None),
            Some(b) => match MessageRecord::decode(&b) {
                Some(mut m) => {
                    m.id = message_id;
                    m.channel_id = channel_id;
                    Ok(Some(m))
                },
                None => Err(CacheError::Decode),
            },
        }
    }

    pub fn delete(channel_id: u64, id: u64) -> (r: Command)
        ensures
            r@ == CommandView::Del(seq![message_key(channel_id, id)]),
    {
        let mut ids: Vec<u64> = Vec::new();
        ids.push(id);
        let r = Self::bulk_delete(channel_id, &ids);
        assert(ids@.map_values(|id: u64| message_key(channel_id, id)) =~= seq![message_key(channel_id, id)]);
        r
    }

    /// Removes the given messages of one channel.
    pub fn bulk_delete(channel_id: u64, ids: &Vec<u64>) -> (r: Command)
        ensures
            r@ == CommandView::Del(ids@.map_values(|id: u64| message_key(channel_id, id))),
    {
        let mut keys: Vec<Vec<u8>> = Vec::new();
        let mut i: usize = 0;
        while i < ids.len()
            invariant
                i <= ids@.len(),
                seq_view(keys@) == ids@.subrange(0, i as int).map_values(
                    |id: u64| message_key(channel_id, id),
                ),
            decreases ids@.len() - i,
        {
            let ghost before = keys@;
            keys.push(CacheKey::Messages(channel_id, ids[i]).encode());
            assert(seq_view(keys@) =~= seq_view(before).push(message_key(channel_id, ids@[i as int])));
            i = i + 1;
            assert(seq_view(keys@) =~= ids@.subrange(0, i as int).map_values(
                |id: u64| message_key(channel_id, id),
            ));
        }
        assert(ids@.subrange(0, i as int) =~= ids@);
        Command::Del(keys)
    }
}

/// A member's voice connection in a guild.
pub struct VoiceStateRecord {
    pub guild_id: Option<u64>,
    pub channel_id: Option<u64>,
    pub user_id: u64,
}

pub open spec fn voice_key(guild_id: u64) -> Seq<u8> {
    cache_key_bytes(CacheKeyView::VoiceState(guild_id))
}

/// The command that records one voice state: the member's channel, or its
/// removal once it has left voice.
pub open spec fn voice_cmd(guild_id: u64, channel_id: Option<u64>, user_id: u64) -> CommandView {
    match channel_id {
        Some(c) => CommandView::HSet(voice_key(guild_id), u64_bytes(user_id), u64_bytes(c)),
        None => CommandView::HDel(voice_key(guild_id), u64_bytes(user_id)),
    }
}

pub struct CachedVoiceState;

impl CachedVoiceState {
    /// Replaces a guild's voice states in one atomic batch.
    pub fn update_guild(guild_id: u64, states: &Vec<VoiceStateRecord>) -> (r: Pipeline)
        requires
            forall|i: int| 0 <= i < states@.len() ==> (#[trigger] states@[i]).guild_id == Some(guild_id),
        ensures
            r.atomic,
            r.cmds() == seq![CommandView::Del(seq![voice_key(guild_id)])] + states@.map_values(
                |s: VoiceStateRecord| voice_cmd(guild_id, s.channel_id, s.user_id),
            ),
    {
        let mut pipe = Pipeline::new(true);
        pipe.add(Self::clear_guild(guild_id));
        let ghost head = pipe.cmds();
        let mut i: usize = 0;
        while i < states.len()
            invariant
                forall|i: int| 0 <= i < states@.len() ==> (#[trigger] states@[i]).guild_id == Some(guild_id),
                i <= states@.len(),
                pipe.atomic,
                head == seq![CommandView::Del(seq![voice_key(guild_id)])],
                pipe.cmds() == head + states@.subrange(0, i as int).map_values(
                    |s: VoiceStateRecord| voice_cmd(guild_id, s.channel_id, s.user_id),
                ),
            decreases states@.len() - i,
        {
            pipe.add(Self::save(&states[i]));
            i = i + 1;
            assert(pipe.cmds() =~= head + states@.subrange(0, i as int).map_values(
                |s: VoiceStateRecord| voice_cmd(guild_id, s.channel_id, s.user_id),
            ));
        }
        assert(states@.subrange(0, i as int) =~= states@);
        pipe
    }

    /// The read of the channel a member is connected to.
    pub fn get_channel(guild_id: u64, user_id: u64) -> (r: Command)
        ensures
            r@ == CommandView::HGet(voice_key(guild_id), seq![u64_bytes(user_id)]),
    {
        let mut fields: Vec<Vec<u8>> = Vec::new();
        fields.push(id_bytes(user_id));
        assert(seq_view(fields@) =~= seq![u64_bytes(user_id)]);
        Command::HGet(CacheKey::VoiceState(guild_id).encode(), fields)
    }

    /// The read of every member's channel in a guild.
    pub fn get_channels(guild_id: u64) -> (r: Command)
        ensures
            r@ == CommandView::HGetAll(voice_key(guild_id)),
    {
        Command::HGetAll(CacheKey::VoiceState(guild_id).encode())
    }

    /// Records one voice state; only states within a guild are kept.
    pub fn save(state: &VoiceStateRecord) -> (r: Command)
        requires
            state.guild_id is Some,
        ensures
            r@ == voice_cmd(state.guild_id->0, state.channel_id, state.user_id),
    {
        let guild_id = match state.guild_id {
            Some(g) => g,
            None => 0,
        };
        let key = CacheKey::VoiceState(guild_id).encode();
        match state.channel_id {
            Some(c) => Command::HSet(key, id_bytes(state.user_id), id_bytes(c)),
            None => Command::HDel(key, id_bytes(state.user_id)),
        }
    }

    pub fn clear_guild(guild_id: u64) -> (r: Command)
        ensures
            r@ == CommandView::Del(seq![voice_key(guild_id)]),
    {
        let mut keys: Vec<Vec<u8>> = Vec::new();
        keys.push(CacheKey::VoiceState(guild_id).encode());
        assert(seq_view(keys@) =~= seq![voice_key(guild_id)]);
        Command::Del(keys)
    }
}

pub open spec fn config_key(guild_id: u64) -> Seq<u8> {
    cache_key_bytes(CacheKeyView::GuildConfigs(guild_id))
}

/// A guild's configuration: one stored value per kind of configuration.
pub struct GuildConfig;

impl GuildConfig {
    /// The read of one kind of configuration.
    pub fn fetch(guild_id: u64, subkey: u8) -> (r: Command)
        ensures
            r@ == CommandView::HGet(config_key(guild_id), seq![seq![subkey]]),
    {
        let mut field: Vec<u8> = Vec::new();
        field.push(subkey);
        let mut fields: Vec<Vec<u8>> = Vec::new();
        fields.push(field);
        assert(seq_view(fields@) =~= seq![seq![subkey]]);
        Command::HGet(CacheKey::GuildConfigs(guild_id).encode(), fields)
    }

    /// The stored configuration, or the empty one (which is the zero value)
    /// where none is stored.
    pub fn fetch_or_default(reply: Option<Vec<u8>>) -> (r: Vec<u8>)
        ensures
            r@ == match opt_bytes_view(reply) {
                Some(b) => b,
                None => Seq::<u8>::empty(),
            },
    {
        match reply {
            Some(b) => b,
            None => Vec::new(),
        }
    }

    /// Overwrites one kind of configuration, leaving the other kinds alone.
    pub fn set(guild_id: u64, subkey: u8, value: Vec<u8>) -> (r: Command)
        ensures
            r@ == CommandView::HSet(config_key(guild_id), seq![subkey], value@),
    {
        let mut field: Vec<u8> = Vec::new();
        field.push(subkey);
        assert(field@ =~= seq![subkey]);
        Command::HSet(CacheKey::GuildConfigs(guild_id).encode(), field, value)
    }
}

/// The entries whose value is present, in order, with the value unwrapped.
pub open spec fn parsed_pairs<T>(es: Seq<(u64, Option<T>)>) -> Seq<(u64, T)>
    decreases es.len(),
{
    if es.len() == 0 {
        Seq::empty()
    } else {
        let rest = parsed_pairs(es.drop_last());
        match es.last().1 {
            Some(x) => rest.push((es.last().0, x)),
            None => rest,
        }
    }
}

/// Gateway sessions kept per shard, to resume after a reconnect.
pub struct ResumeState;

impl ResumeState {
    /// Writes every session that could be serialised; the others are dropped.
    pub fn save_sessions(key: &Vec<u8>, sessions: Vec<(u64, Option<Vec<u8>>)>) -> (r: Command)
        ensures
            r@ == CommandView::HSetMultiple(
                cache_key_bytes(CacheKeyView::ResumeState(key@)),
                pairs_view(parsed_pairs(sessions@)),
            ),
    {
        let kept = Self::keep_parsed(sessions);
        Command::HSetMultiple(CacheKey::ResumeState(copy_bytes(key)).encode(), kept)
    }

    /// The read of every stored session.
    pub fn get_sessions(key: &Vec<u8>) -> (r: Command)
        ensures
            r@ == CommandView::HGetAll(cache_key_bytes(CacheKeyView::ResumeState(key@))),
    {
        Command::HGetAll(CacheKey::ResumeState(copy_bytes(key)).encode())
    }

    /// The entries that could be (de)serialised, in order; the others are
    /// dropped.
    pub fn keep_parsed<T>(entries: Vec<(u64, Option<T>)>) -> (r: Vec<(u64, T)>)
        ensures
            r@ == parsed_pairs(entries@),
    {
        let ghost src = entries@;
        let mut rest = entries;
        let mut rev: Vec<(u64, Option<T>)> = Vec::new();
        while rest.len() > 0
            invariant
                rest@.len() <= src.len(),
                rest@ == src.subrange(0, rest@.len() as int),
                rev@ == src.subrange(rest@.len() as int, src.len() as int).reverse(),
            decreases rest@.len(),
        {
            let ghost r0 = rest@;
            let e = rest.pop().unwrap();
            assert(e == src[r0.len() - 1]);
            rev.push(e);
            assert(rest@ =~= src.subrange(0, rest@.len() as int));
            assert(rev@ =~= src.subrange(rest@.len() as int, src.len() as int).reverse());
        }
        let mut out: Vec<(u64, T)> = Vec::new();
        while rev.len() > 0
            invariant
                rev@.len() <= src.len(),
                rev@ == src.subrange(src.len() - rev@.len(), src.len() as int).reverse(),
                out@ == parsed_pairs(src.subrange(0, src.len() - rev@.len())),
            decreases rev@.len(),
        {
            let ghost done = src.len() - rev@.len();
            let (shard, v) = rev.pop().unwrap();
            assert(src.subrange(0, done + 1).drop_last() =~= src.subrange(0, done));
            assert(src[done] == (shard, v));
            match v {
                Some(x) => out.push((shard, x)),
                None => {},
            }
            assert(rev@ =~= src.subrange(src.len() - rev@.len(), src.len() as int).reverse());
        }
        assert(src.subrange(0, src.len() as int) =~= src);
        out
    }
}

/// The playback queue of a guild: one stored record.
pub struct MusicQueue;

impl MusicQueue {
    pub fn save(guild_id: u64, state: Vec<u8>) -> (r: Command)
        ensures
            r@ == CommandView::Put(cache_key_bytes(CacheKeyView::MusicQueue(guild_id)), state@),
    {
        Command::Put(CacheKey::MusicQueue(guild_id).encode(), state)
    }

    pub fn clear(guild_id: u64) -> (r: Command)
        ensures
            r@ == CommandView::Del(seq![cache_key_bytes(CacheKeyView::MusicQueue(guild_id))]),
    {
        let mut keys: Vec<Vec<u8>> = Vec::new();
        keys.push(CacheKey::MusicQueue(guild_id).encode());
        assert(seq_view(keys@) =~= seq![cache_key_bytes(CacheKeyView::MusicQueue(guild_id))]);
        Command::Del(keys)
    }
}

} // verus!
