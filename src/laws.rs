use vstd::prelude::*;
use crate::ancillary::{message_key, presence_key, set_online_cmds, MESSAGE_TTL, PRESENCE_TTL};
use crate::bytes::{lemma_u64_bytes_injective, u64_bytes};
use crate::guild::{full_save_cmds, guild_container, present_records};
use crate::keys::GuildKey;
use crate::records::{ChannelView, GuildView, RoleView};
use crate::resource::GuildResource;
use crate::store::{CommandView, Entry, Reply, StoreState};

verus! {

/// After a guild's presence set is replaced with `online`, each membership
/// check answers whether the user is among `online`, and the set lapses an
/// hour later.
pub proof fn lemma_presence_membership(s: StoreState, guild_id: u64, online: Seq<u64>, user: u64)
    ensures
        s.run(set_online_cmds(guild_id, online)).reply(
            CommandView::SIsMember(presence_key(guild_id), u64_bytes(user)),
        ) == Reply::Flag(online.contains(user)),
        s.run(set_online_cmds(guild_id, online)).expires[presence_key(guild_id)] == s.now
            + PRESENCE_TTL,
{
    let k = presence_key(guild_id);
    let ms = online.map_values(|id: u64| u64_bytes(id));
    let cs = set_online_cmds(guild_id, online);
    let s1 = s.apply(cs[0]);
    assert(seq![k].drop_first() =~= Seq::<Seq<u8>>::empty());
    assert(s.delete(k).delete_all(Seq::<Seq<u8>>::empty()) == s.delete(k));
    assert(s1 == s.delete(k));
    assert(s1.live(k) is None);
    let s2 = s1.apply(cs[1]);
    assert(s2.members_of(k) == Set::<Seq<u8>>::empty().union(ms.to_set()));
    let s3 = s2.apply(cs[2]);
    assert(cs.drop_first().drop_first().drop_first() =~= Seq::<CommandView>::empty());
    assert(cs.drop_first().drop_first() =~= seq![cs[2]]);
    assert(cs.drop_first() =~= seq![cs[1], cs[2]]);
    assert(s3.run(Seq::<CommandView>::empty()) == s3);
    assert(s2.run(seq![cs[2]]) == s3);
    assert(s1.run(seq![cs[1], cs[2]]) == s3);
    assert(s.run(cs) == s3);
    assert(s3.members_of(k) == s2.members_of(k));
    if online.contains(user) {
        let i = choose|i: int| 0 <= i < online.len() && online[i] == user;
        assert(ms[i] == u64_bytes(user));
        assert(ms.to_set().contains(u64_bytes(user)));
    }
    if ms.to_set().contains(u64_bytes(user)) {
        let i = choose|i: int| 0 <= i < ms.len() && ms[i] == u64_bytes(user);
        lemma_u64_bytes_injective(online[i], user);
        assert(online.contains(user));
    }
}

/// A cached message is served until its day has passed, and absent from then on.
pub proof fn lemma_message_expiry(
    s: StoreState,
    channel_id: u64,
    message_id: u64,
    stored: Seq<u8>,
    secs: int,
)
    requires
        secs >= 0,
    ensures
        ({
            let t = s.apply(
                CommandView::SetEx(message_key(channel_id, message_id), stored, MESSAGE_TTL),
            ).later(secs);
            t.reply(CommandView::Get(message_key(channel_id, message_id))) == if secs
                < MESSAGE_TTL {
                Reply::Value(Some(stored))
            } else {
                Reply::Value(None)
            }
        }),
{
}

/// In a batched read, an absent record adds nothing to the result.
pub proof fn lemma_absent_omitted<T: GuildResource>(replies: Seq<Option<Seq<u8>>>)
    ensures
        present_records::<T>(replies.push(None)) == present_records::<T>(replies),
        present_records::<T>(Seq::<Option<Seq<u8>>>::empty()) == Some(Seq::<T::V>::empty()),
{
    assert(replies.push(None).drop_last() =~= replies);
}

pub open spec fn hsets(k: Seq<u8>, ps: Seq<(Seq<u8>, Seq<u8>)>) -> Seq<CommandView> {
    ps.map_values(|p: (Seq<u8>, Seq<u8>)| CommandView::HSet(k, p.0, p.1))
}

pub open spec fn fold_insert(h: Map<Seq<u8>, Seq<u8>>, ps: Seq<(Seq<u8>, Seq<u8>)>) -> Map<
    Seq<u8>,
    Seq<u8>,
>
    decreases ps.len(),
{
    if ps.len() == 0 {
        h
    } else {
        fold_insert(h.insert(ps[0].0, ps[0].1), ps.drop_first())
    }
}

proof fn lemma_run_append(s: StoreState, a: Seq<CommandView>, b: Seq<CommandView>)
    ensures
        s.run(a + b) == s.run(a).run(b),
    decreases a.len(),
{
    if a.len() == 0 {
        assert(a + b =~= b);
    } else {
        assert((a + b).drop_first() =~= a.drop_first() + b);
        lemma_run_append(s.apply(a[0]), a.drop_first(), b);
    }
}

proof fn lemma_run_hsets(s: StoreState, k: Seq<u8>, ps: Seq<(Seq<u8>, Seq<u8>)>)
    requires
        s.live(k) matches Some(Entry::Hash(_)),
        !s.expires.contains_key(k),
    ensures
        s.run(hsets(k, ps)).live(k) == Some(Entry::Hash(fold_insert(s.hash_of(k), ps))),
    decreases ps.len(),
{
    if ps.len() > 0 {
        let s1 = s.apply(hsets(k, ps)[0]);
        assert(s1.live(k) == Some(Entry::Hash(s.hash_of(k).insert(ps[0].0, ps[0].1))));
        assert(hsets(k, ps).drop_first() =~= hsets(k, ps.drop_first()));
        lemma_run_hsets(s1, k, ps.drop_first());
    }
}

proof fn lemma_fold_insert_keys(h: Map<Seq<u8>, Seq<u8>>, ps: Seq<(Seq<u8>, Seq<u8>)>, f: Seq<u8>)
    ensures
        fold_insert(h, ps).contains_key(f) <==> (h.contains_key(f) || exists|i: int|
            0 <= i < ps.len() && (#[trigger] ps[i]).0 == f),
        (forall|i: int| 0 <= i < ps.len() ==> (#[trigger] ps[i]).0 != f) && h.contains_key(f)
            ==> fold_insert(h, ps)[f] == h[f],
    decreases ps.len(),
{
    if ps.len() > 0 {
        let rest = ps.drop_first();
        lemma_fold_insert_keys(h.insert(ps[0].0, ps[0].1), rest, f);
        if exists|i: int| 0 <= i < ps.len() && (#[trigger] ps[i]).0 == f {
            let i = choose|i: int| 0 <= i < ps.len() && (#[trigger] ps[i]).0 == f;
            if i > 0 {
                assert(rest[i - 1] == ps[i]);
            }
        }
        if exists|i: int| 0 <= i < rest.len() && (#[trigger] rest[i]).0 == f {
            let i = choose|i: int| 0 <= i < rest.len() && (#[trigger] rest[i]).0 == f;
            assert(ps[i + 1] == rest[i]);
        }
        if forall|i: int| 0 <= i < ps.len() ==> (#[trigger] ps[i]).0 != f {
            assert forall|i: int| 0 <= i < rest.len() implies (#[trigger] rest[i]).0 != f by {
                assert(ps[i + 1] == rest[i]);
            }
        }
    }
}

/// After a guild's container is replaced, it holds exactly the guild record,
/// every channel and every role, with the guild record's own bytes under the
/// guild's field name. The commands run as one atomic batch (see
/// `CachedGuild::save`), so a reader sees either this state or the one before.
pub proof fn lemma_full_replace(s: StoreState, g: GuildView, cs: Seq<ChannelView>, rs: Seq<RoleView>)
    ensures
        ({
            let t = s.run(full_save_cmds(g, cs, rs));
            let h = t.hash_of(guild_container(g.id));
            &&& t.live(guild_container(g.id)) matches Some(Entry::Hash(_))
            &&& h.contains_key(GuildKey::Guild.spec_bytes())
            &&& h[GuildKey::Guild.spec_bytes()] == g.bytes()
            &&& forall|i: int|
                0 <= i < cs.len() ==> h.contains_key(
                    #[trigger] GuildKey::Channel(cs[i].channel_id).spec_bytes(),
                )
            &&& forall|i: int|
                0 <= i < rs.len() ==> h.contains_key(
                    #[trigger] GuildKey::Role(rs[i].role_id).spec_bytes(),
                )
            &&& forall|f: Seq<u8>|
                #![trigger h.contains_key(f)]
                h.contains_key(f) ==> f == GuildKey::Guild.spec_bytes() || (exists|i: int|
                    0 <= i < cs.len() && f == GuildKey::Channel(cs[i].channel_id).spec_bytes()) || (
                exists|i: int| 0 <= i < rs.len() && f == GuildKey::Role(rs[i].role_id).spec_bytes())
        }),
{
    let k = guild_container(g.id);
    let gk = GuildKey::Guild.spec_bytes();
    let cps = cs.map_values(|c: ChannelView| (GuildKey::Channel(c.channel_id).spec_bytes(), c.bytes()));
    let rps = rs.map_values(|r: RoleView| (GuildKey::Role(r.role_id).spec_bytes(), r.bytes()));
    let rest = cps + rps;
    let head = seq![CommandView::Del(seq![k]), CommandView::HSet(k, gk, g.bytes())];
    assert(full_save_cmds(g, cs, rs) =~= head + hsets(k, rest));
    lemma_run_append(s, head, hsets(k, rest));
    let s1 = s.apply(head[0]);
    assert(seq![k].drop_first() =~= Seq::<Seq<u8>>::empty());
    assert(s.delete(k).delete_all(Seq::<Seq<u8>>::empty()) == s.delete(k));
    assert(s1 == s.delete(k));
    let s2 = s1.apply(head[1]);
    assert(s2.live(k) == Some(Entry::Hash(Map::<Seq<u8>, Seq<u8>>::empty().insert(gk, g.bytes()))));
    assert(head.drop_first().drop_first() =~= Seq::<CommandView>::empty());
    assert(s2.run(Seq::<CommandView>::empty()) == s2);
    assert(s1.run(head.drop_first()) == s2);
    assert(s.run(head) == s2);
    lemma_run_hsets(s2, k, rest);
    let h0 = Map::<Seq<u8>, Seq<u8>>::empty().insert(gk, g.bytes());
    let h = fold_insert(h0, rest);
    lemma_fold_insert_keys(h0, rest, gk);
    assert forall|i: int| 0 <= i < rest.len() implies (#[trigger] rest[i]).0 != gk by {
        if i < cps.len() {
            assert(rest[i].0[0] != gk[0]);
        } else {
            assert(rest[i] == rps[i - cps.len()]);
            assert(rest[i].0[0] != gk[0]);
        }
    }
    assert forall|i: int| 0 <= i < cs.len() implies h.contains_key(
        #[trigger] GuildKey::Channel(cs[i].channel_id).spec_bytes(),
    ) by {
        lemma_fold_insert_keys(h0, rest, GuildKey::Channel(cs[i].channel_id).spec_bytes());
        assert(rest[i] == cps[i]);
    }
    assert forall|i: int| 0 <= i < rs.len() implies h.contains_key(
        #[trigger] GuildKey::Role(rs[i].role_id).spec_bytes(),
    ) by {
        lemma_fold_insert_keys(h0, rest, GuildKey::Role(rs[i].role_id).spec_bytes());
        assert(rest[cps.len() + i] == rps[i]);
    }
    assert forall|f: Seq<u8>| #![trigger h.contains_key(f)] h.contains_key(f) implies f == gk || (
    exists|i: int| 0 <= i < cs.len() && f == GuildKey::Channel(cs[i].channel_id).spec_bytes()) || (
    exists|i: int| 0 <= i < rs.len() && f == GuildKey::Role(rs[i].role_id).spec_bytes()) by {
        lemma_fold_insert_keys(h0, rest, f);
        if f != gk {
            let i = choose|i: int| 0 <= i < rest.len() && (#[trigger] rest[i]).0 == f;
            if i < cps.len() {
                assert(rest[i] == cps[i]);
            } else {
                assert(rest[i] == rps[i - cps.len()]);
            }
        }
    }
}

} // verus!
