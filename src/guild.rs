use vstd::prelude::*;
use crate::keys::{cache_key_bytes, CacheKey, CacheKeyView, GuildKey};
use crate::records::{ChannelRecord, ChannelView, GuildRecord, GuildView, RoleRecord, RoleView};
use crate::resource::{GuildResource, ToProto};
use crate::store::{Command, CommandView, Pipeline};
use crate::permissions::{member_permissions, RoleSet, ALL_PERMISSIONS, NO_PERMISSIONS};
use crate::wire::seq_view;

verus! {

/// A stored record that could not be read back.
#[derive(PartialEq, Eq, Structural, Clone, Copy, Debug)]
pub enum CacheError {
    Decode,
}

/// The bytes of the container that holds a guild's resources.
pub open spec fn guild_container(guild_id: u64) -> Seq<u8> {
    cache_key_bytes(CacheKeyView::Guild(guild_id))
}

/// The command that writes one resource of kind `T`.
pub open spec fn save_resource_cmd<T: GuildResource>(guild_id: u64, id: u64, v: T::V) -> CommandView {
    CommandView::HSet(guild_container(guild_id), T::spec_key(id).spec_bytes(), T::proto_bytes(v))
}

/// The commands that replace a guild's whole container.
pub open spec fn full_save_cmds(g: GuildView, cs: Seq<ChannelView>, rs: Seq<RoleView>) -> Seq<
    CommandView,
> {
    seq![
        CommandView::Del(seq![guild_container(g.id)]),
        save_resource_cmd::<GuildRecord>(g.id, g.id, g),
    ] + cs.map_values(|c: ChannelView| save_resource_cmd::<ChannelRecord>(g.id, c.channel_id, c))
        + rs.map_values(|r: RoleView| save_resource_cmd::<RoleRecord>(g.id, r.role_id, r))
}

pub open spec fn channel_views(cs: Seq<ChannelRecord>) -> Seq<ChannelView> {
    cs.map_values(|c: ChannelRecord| c@)
}

pub open spec fn role_views(rs: Seq<RoleRecord>) -> Seq<RoleView> {
    rs.map_values(|r: RoleRecord| r@)
}

/// The records that a batched read returns: the present ones, in order, each
/// decoded; `None` if a present one does not decode.
pub open spec fn present_records<T: GuildResource>(replies: Seq<Option<Seq<u8>>>) -> Option<
    Seq<T::V>,
>
    decreases replies.len(),
{
    if replies.len() == 0 {
        Some(Seq::empty())
    } else {
        match present_records::<T>(replies.drop_last()) {
            Some(vs) => match replies.last() {
                Some(b) => match T::spec_decode(b) {
                    Some(v) => Some(vs.push(v)),
                    None => None,
                },
                None => Some(vs),
            },
            None => None,
        }
    }
}

/// The resources of kind `T` among a container's fields, in order, each with
/// its id; fields of other kinds, and entries that do not decode, are skipped.
pub open spec fn resources_of_kind<T: GuildResource>(fields: Seq<(Seq<u8>, Seq<u8>)>) -> Seq<
    (u64, T::V),
>
    decreases fields.len(),
{
    if fields.len() == 0 {
        Seq::empty()
    } else {
        let rest = resources_of_kind::<T>(fields.drop_last());
        let (f, b) = fields.last();
        match GuildKey::spec_decode(f) {
            Some(k) => if k.spec_tag() == T::spec_prefix() {
                match (T::spec_id(k), T::spec_decode(b)) {
                    (Some(id), Some(v)) => rest.push((id, v)),
                    _ => rest,
                }
            } else {
                rest
            },
            None => rest,
        }
    }
}

pub open spec fn opt_bytes_view(o: Option<Vec<u8>>) -> Option<Seq<u8>> {
    match o {
        Some(v) => Some(v@),
        None => None,
    }
}

pub open spec fn replies_view(rs: Seq<Option<Vec<u8>>>) -> Seq<Option<Seq<u8>>> {
    rs.map_values(|o: Option<Vec<u8>>| opt_bytes_view(o))
}

pub open spec fn fields_view(fs: Seq<(Vec<u8>, Vec<u8>)>) -> Seq<(Seq<u8>, Seq<u8>)> {
    fs.map_values(|p: (Vec<u8>, Vec<u8>)| (p.0@, p.1@))
}

pub open spec fn with_ids<T: View>(rs: Seq<(u64, T)>) -> Seq<(u64, T::V)> {
    rs.map_values(|p: (u64, T)| (p.0, p.1@))
}

pub open spec fn views<T: View>(rs: Seq<T>) -> Seq<T::V> {
    rs.map_values(|t: T| t@)
}

/// Operations on a guild's container of resources.
pub struct CachedGuild;

impl CachedGuild {
    /// Replaces the guild's whole container in one atomic batch: clears it,
    /// then writes the guild record, every channel and every role.
    pub fn save(guild: &GuildRecord, channels: &Vec<ChannelRecord>, roles: &Vec<RoleRecord>) -> (r:
        Pipeline)
        ensures
            r.atomic,
            r.cmds() == full_save_cmds(guild@, channel_views(channels@), role_views(roles@)),
    {
        let mut pipe = Pipeline::new(true);
        pipe.add(guild_delete_cmd(guild.id));
        pipe.add(Self::save_resource(guild.id, guild.id, guild));
        let ghost head = pipe.cmds();
        let ghost cs = channel_views(channels@);
        let ghost rs = role_views(roles@);
        let ghost gid = guild.id;
        let mut i: usize = 0;
        while i < channels.len()
            invariant
                i <= channels@.len(),
                gid == guild.id,
                cs == channel_views(channels@),
                pipe.atomic,
                pipe.cmds() == head + cs.subrange(0, i as int).map_values(
                    |c: ChannelView| save_resource_cmd::<ChannelRecord>(gid, c.channel_id, c),
                ),
            decreases channels@.len() - i,
        {
            let c = &channels[i];
            pipe.add(Self::save_resource(guild.id, c.channel_id, c));
            i = i + 1;
            assert(pipe.cmds() =~= head + cs.subrange(0, i as int).map_values(
                |c: ChannelView| save_resource_cmd::<ChannelRecord>(gid, c.channel_id, c),
            ));
        }
        assert(cs.subrange(0, i as int) =~= cs);
        let ghost mid = pipe.cmds();
        let mut j: usize = 0;
        while j < roles.len()
            invariant
                j <= roles@.len(),
                gid == guild.id,
                rs == role_views(roles@),
                pipe.atomic,
                pipe.cmds() == mid + rs.subrange(0, j as int).map_values(
                    |r: RoleView| save_resource_cmd::<RoleRecord>(gid, r.role_id, r),
                ),
            decreases roles@.len() - j,
        {
            let r = &roles[j];
            pipe.add(Self::save_resource(guild.id, r.role_id, r));
            j = j + 1;
            assert(pipe.cmds() =~= mid + rs.subrange(0, j as int).map_values(
                |r: RoleView| save_resource_cmd::<RoleRecord>(gid, r.role_id, r),
            ));
        }
        assert(rs.subrange(0, j as int) =~= rs);
        assert(pipe.cmds() =~= full_save_cmds(guild@, cs, rs));
        pipe
    }

    /// Removes the guild's whole container.
    pub fn delete(guild_id: u64) -> (r: Command)
        ensures
            r@ == CommandView::Del(seq![guild_container(guild_id)]),
    {
        guild_delete_cmd(guild_id)
    }

    /// Writes one resource into the guild's container.
    pub fn save_resource<T: GuildResource>(guild_id: u64, resource_id: u64, data: &T) -> (r: Command)
        ensures
            r@ == save_resource_cmd::<T>(guild_id, resource_id, data@),
    {
        let key = CacheKey::Guild(guild_id).encode();
        let field = T::key(resource_id).encode();
        Command::HSet(key, field, data.to_proto())
    }

    /// Removes one resource from the guild's container.
    pub fn delete_resource<T: GuildResource>(guild_id: u64, resource_id: u64) -> (r: Command)
        ensures
            r@ == CommandView::HDel(guild_container(guild_id), T::spec_key(resource_id).spec_bytes()),
    {
        Command::HDel(CacheKey::Guild(guild_id).encode(), T::key(resource_id).encode())
    }

    /// The read of one resource.
    pub fn fetch_resource<T: GuildResource>(guild_id: u64, resource_id: u64) -> (r: Command)
        ensures
            r@ == CommandView::HGet(
                guild_container(guild_id),
                seq![T::spec_key(resource_id).spec_bytes()],
            ),
    {
        let mut fields: Vec<Vec<u8>> = Vec::new();
        fields.push(T::key(resource_id).encode());
        let r = Command::HGet(CacheKey::Guild(guild_id).encode(), fields);
        assert(seq_view(fields@) =~= seq![T::spec_key(resource_id).spec_bytes()]);
        r
    }

    /// Reads the answer to `fetch_resource`: absence is `None`, a record that
    /// does not decode is an error.
    pub fn resource_from_reply<T: GuildResource>(reply: Option<Vec<u8>>) -> (r: Result<Option<T>, CacheError>)
        ensures
            match opt_bytes_view(reply) {
                None => r matches Ok(None),
                Some(b) => match T::spec_decode(b) {
                    Some(v) => r matches Ok(Some(x)) && x@ == v,
                    None => r == Err::<Option<T>, CacheError>(CacheError::Decode),
                },
            },
    {
        match reply {
            None => Ok(None),
            Some(b) => match T::from_proto(&b) {
                Some(x) => Ok(Some(x)),
                None => Err(CacheError::Decode),
            },
        }
    }

    /// The read of several resources: no command at all for no ids, else one
    /// command that asks for every field at once.
    pub fn fetch_resources<T: GuildResource>(guild_id: u64, resource_ids: &Vec<u64>) -> (r: Option<Command>)
        ensures
            resource_ids@.len() == 0 ==> r is None,
            resource_ids@.len() > 0 ==> (r matches Some(c) && c@ == CommandView::HGet(
                guild_container(guild_id),
                resource_ids@.map_values(|id: u64| T::spec_key(id).spec_bytes()),
            )),
    {
        if resource_ids.len() == 0 {
            return None;
        }
        let mut fields: Vec<Vec<u8>> = Vec::new();
        let mut i: usize = 0;
        while i < resource_ids.len()
            invariant
                i <= resource_ids@.len(),
                seq_view(fields@) == resource_ids@.subrange(0, i as int).map_values(
                    |id: u64| T::spec_key(id).spec_bytes(),
                ),
            decreases resource_ids@.len() - i,
        {
            let e = T::key(resource_ids[i]).encode();
            let ghost before = fields@;
            fields.push(e);
            assert(seq_view(fields@) =~= seq_view(before).push(e@));
            assert(resource_ids@.subrange(0, i as int + 1).map_values(
                |id: u64| T::spec_key(id).spec_bytes(),
            ) =~= resource_ids@.subrange(0, i as int).map_values(
                |id: u64| T::spec_key(id).spec_bytes(),
            ).push(T::spec_key(resource_ids@[i as int]).spec_bytes()));
            i = i + 1;
            assert(seq_view(fields@) =~= resource_ids@.subrange(0, i as int).map_values(
                |id: u64| T::spec_key(id).spec_bytes(),
            ));
        }
        assert(resource_ids@.subrange(0, i as int) =~= resource_ids@);
        Some(Command::HGet(CacheKey::Guild(guild_id).encode(), fields))
    }

    /// Reads the answer to `fetch_resources`: the present records in order,
    /// absent ones left out; an error if a present one does not decode.
    pub fn resources_from_reply<T: GuildResource>(replies: Vec<Option<Vec<u8>>>) -> (r: Result<Vec<T>, CacheError>)
        ensures
            match present_records::<T>(replies_view(replies@)) {
                Some(vs) => r matches Ok(xs) && views(xs@) == vs,
                None => r == Err::<Vec<T>, CacheError>(CacheError::Decode),
            },
    {
        let mut out: Vec<T> = Vec::new();
        let mut i: usize = 0;
        while i < replies.len()
            invariant
                i <= replies@.len(),
                present_records::<T>(replies_view(replies@.subrange(0, i as int))) == Some(
                    views(out@),
                ),
            decreases replies@.len() - i,
        {
            let ghost pre = replies_view(replies@.subrange(0, i as int + 1));
            assert(pre.drop_last() =~= replies_view(replies@.subrange(0, i as int)));
            match &replies[i] {
                Some(b) => match T::from_proto(b) {
                    Some(x) => {
                        let ghost before = out@;
                        out.push(x);
                        assert(views(out@) =~= views(before).push(out@.last()@));
                    },
                    None => {
                        proof {
                            lemma_present_prefix_fails::<T>(replies_view(replies@), i as int + 1);
                            assert(replies_view(replies@).subrange(0, i as int + 1) =~= pre);
                        }
                        return Err(CacheError::Decode);
                    },
                },
                None => {},
            }
            i = i + 1;
        }
        assert(replies@.subrange(0, i as int) =~= replies@);
        Ok(out)
    }

    /// The read of every field of the guild's container; its answer goes to
    /// `resources_of_kind_from_reply`. Its cost grows with the whole
    /// container, not with the number of resources of one kind.
    pub fn fetch_all_resources(guild_id: u64) -> (r: Command)
        ensures
            r@ == CommandView::HGetAll(guild_container(guild_id)),
    {
        Command::HGetAll(CacheKey::Guild(guild_id).encode())
    }

    /// Reads every field of a container (the answer to a full read) and keeps
    /// the resources of kind `T`, skipping other kinds and entries that do not
    /// decode.
    pub fn resources_of_kind_from_reply<T: GuildResource>(fields: Vec<(Vec<u8>, Vec<u8>)>) -> (r: Vec<(u64, T)>)
        ensures
            with_ids(r@) == resources_of_kind::<T>(fields_view(fields@)),
    {
        let mut out: Vec<(u64, T)> = Vec::new();
        let mut i: usize = 0;
        while i < fields.len()
            invariant
                i <= fields@.len(),
                with_ids(out@) == resources_of_kind::<T>(fields_view(fields@.subrange(0, i as int))),
            decreases fields@.len() - i,
        {
            let ghost pre = fields_view(fields@.subrange(0, i as int + 1));
            assert(pre.drop_last() =~= fields_view(fields@.subrange(0, i as int)));
            let (f, b) = &fields[i];
            if let Some(k) = GuildKey::decode(f) {
                if k.prefix() == T::prefix() {
                    if let Some(id) = T::from_key(k) {
                        if let Some(x) = T::from_proto(b) {
                            out.push((id, x));
                        }
                    }
                }
            }
            assert(with_ids(out@) =~= resources_of_kind::<T>(pre));
            i = i + 1;
        }
        assert(fields@.subrange(0, i as int) =~= fields@);
        out
    }
}

impl CachedGuild {
    /// The role set of a member from the answer to `fetch_resources` of the
    /// member's role ids: the stored roles, absent ones left out.
    pub fn role_set(replies: Vec<Option<Vec<u8>>>) -> (r: Result<RoleSet, CacheError>)
        ensures
            match present_records::<RoleRecord>(replies_view(replies@)) {
                Some(vs) => r matches Ok(set) && set.role_views() == vs,
                None => r == Err::<RoleSet, CacheError>(CacheError::Decode),
            },
    {
        match Self::resources_from_reply::<RoleRecord>(replies) {
            Ok(roles) => Ok(RoleSet::new(roles)),
            Err(e) => Err(e),
        }
    }

    /// What a member may do in a guild, from the guild's stored record (if
    /// any) and the role set of the member's roles plus the guild's implicit
    /// role (see `permission_role_ids`): nothing for an unknown guild,
    /// everything for its owner, else what the roles grant.
    pub fn guild_permissions(guild: Option<&GuildRecord>, user_id: u64, roles: &RoleSet) -> (r: u64)
        ensures
            r == member_permissions(
                match guild {
                    Some(g) => Some(g@),
                    None => None,
                },
                user_id,
                roles.role_views(),
            ),
    {
        match guild {
            None => NO_PERMISSIONS,
            Some(g) => if g.owner_id == user_id {
                ALL_PERMISSIONS
            } else {
                roles.guild_permissions()
            },
        }
    }
}

proof fn lemma_present_prefix_fails<T: GuildResource>(rs: Seq<Option<Seq<u8>>>, n: int)
    requires
        0 <= n <= rs.len(),
        present_records::<T>(rs.subrange(0, n)) is None,
    ensures
        present_records::<T>(rs) is None,
    decreases rs.len() - n,
{
    if n < rs.len() {
        assert(rs.subrange(0, n + 1).drop_last() =~= rs.subrange(0, n));
        lemma_present_prefix_fails::<T>(rs, n + 1);
    } else {
        assert(rs.subrange(0, n) =~= rs);
    }
}

fn guild_delete_cmd(guild_id: u64) -> (r: Command)
    ensures
        r@ == CommandView::Del(seq![guild_container(guild_id)]),
{
    let mut keys: Vec<Vec<u8>> = Vec::new();
    keys.push(CacheKey::Guild(guild_id).encode());
    assert(seq_view(keys@) =~= seq![guild_container(guild_id)]);
    Command::Del(keys)
}

} // verus!
