use vstd::prelude::*;
use crate::bytes::{lemma_u64_at_append, push_all, push_u64, read_u64, u64_at, u64_bytes};

verus! {

/// Tag byte of the singleton guild record inside a guild's container.
pub const GUILD_TAG: u8 = 1;
/// Tag byte of a role record inside a guild's container.
pub const ROLE_TAG: u8 = 2;
/// Tag byte of a channel record inside a guild's container.
pub const CHANNEL_TAG: u8 = 3;

/// A top-level key of the store.
pub enum CacheKey {
    GuildConfigs(u64),
    Guild(u64),
    Messages(u64, u64),
    VoiceState(u64),
    OnlineStatus(u64),
    ResumeState(Vec<u8>),
    MusicQueue(u64),
}

/// What a top-level key denotes, with its text as bytes.
pub enum CacheKeyView {
    GuildConfigs(u64),
    Guild(u64),
    Messages(u64, u64),
    VoiceState(u64),
    OnlineStatus(u64),
    ResumeState(Seq<u8>),
    MusicQueue(u64),
}

impl View for CacheKey {
    type V = CacheKeyView;

    open spec fn view(&self) -> CacheKeyView {
        match self {
            CacheKey::GuildConfigs(g) => CacheKeyView::GuildConfigs(*g),
            CacheKey::Guild(g) => CacheKeyView::Guild(*g),
            CacheKey::Messages(c, m) => CacheKeyView::Messages(*c, *m),
            CacheKey::VoiceState(g) => CacheKeyView::VoiceState(*g),
            CacheKey::OnlineStatus(g) => CacheKeyView::OnlineStatus(*g),
            CacheKey::ResumeState(s) => CacheKeyView::ResumeState(s@),
            CacheKey::MusicQueue(g) => CacheKeyView::MusicQueue(*g),
        }
    }
}

/// The stored form of a top-level key: a category byte, then the ids.
pub open spec fn cache_key_bytes(k: CacheKeyView) -> Seq<u8> {
    match k {
        CacheKeyView::GuildConfigs(g) => seq![0u8] + u64_bytes(g),
        CacheKeyView::Guild(g) => seq![1u8] + u64_bytes(g),
        CacheKeyView::Messages(c, m) => seq![2u8] + u64_bytes(c) + u64_bytes(m),
        CacheKeyView::VoiceState(g) => seq![3u8] + u64_bytes(g),
        CacheKeyView::OnlineStatus(g) => seq![4u8] + u64_bytes(g),
        CacheKeyView::ResumeState(s) => seq![5u8] + s,
        CacheKeyView::MusicQueue(g) => seq![6u8] + u64_bytes(g),
    }
}

fn tagged_id(tag: u8, id: u64) -> (r: Vec<u8>)
    ensures
        r@ == seq![tag] + u64_bytes(id),
{
    let mut r: Vec<u8> = Vec::new();
    r.push(tag);
    push_u64(&mut r, id);
    r
}

impl CacheKey {
    /// The bytes under which this key is stored.
    pub fn encode(&self) -> (r: Vec<u8>)
        ensures
            r@ == cache_key_bytes(self@),
    {
        match self {
            CacheKey::GuildConfigs(g) => tagged_id(0, *g),
            CacheKey::Guild(g) => tagged_id(1, *g),
            CacheKey::Messages(c, m) => {
                let mut r = tagged_id(2, *c);
                push_u64(&mut r, *m);
                r
            },
            CacheKey::VoiceState(g) => tagged_id(3, *g),
            CacheKey::OnlineStatus(g) => tagged_id(4, *g),
            CacheKey::ResumeState(s) => {
                let mut r: Vec<u8> = Vec::new();
                r.push(5);
                push_all(&mut r, s);
                r
            },
            CacheKey::MusicQueue(g) => tagged_id(6, *g),
        }
    }
}

/// Two top-level keys that differ in category or in any id are stored under
/// different bytes.
pub proof fn lemma_cache_keys_distinct(a: CacheKeyView, b: CacheKeyView)
    ensures
        a != b ==> cache_key_bytes(a) != cache_key_bytes(b),
{
    let (x, y) = (cache_key_bytes(a), cache_key_bytes(b));
    if a != b && x == y {
        assert(x[0] == y[0]);
        match (a, b) {
            (CacheKeyView::Messages(c, m), CacheKeyView::Messages(c2, m2)) => {
                lemma_u64_at_append(seq![2u8], c, u64_bytes(m));
                lemma_u64_at_append(seq![2u8], c2, u64_bytes(m2));
                lemma_u64_at_append(seq![2u8] + u64_bytes(c), m, seq![]);
                lemma_u64_at_append(seq![2u8] + u64_bytes(c2), m2, seq![]);
                assert(x =~= seq![2u8] + u64_bytes(c) + u64_bytes(m) + seq![]);
                assert(y =~= seq![2u8] + u64_bytes(c2) + u64_bytes(m2) + seq![]);
            },
            (CacheKeyView::ResumeState(s), CacheKeyView::ResumeState(s2)) => {
                assert(s =~= x.subrange(1, x.len() as int));
                assert(s2 =~= y.subrange(1, y.len() as int));
            },
            _ => {
                let ga = single_id(a);
                let gb = single_id(b);
                lemma_u64_at_append(seq![x[0]], ga, seq![]);
                lemma_u64_at_append(seq![y[0]], gb, seq![]);
                assert(x =~= seq![x[0]] + u64_bytes(ga) + seq![]);
                assert(y =~= seq![y[0]] + u64_bytes(gb) + seq![]);
            },
        }
    }
}

spec fn single_id(k: CacheKeyView) -> u64 {
    match k {
        CacheKeyView::GuildConfigs(g) => g,
        CacheKeyView::Guild(g) => g,
        CacheKeyView::VoiceState(g) => g,
        CacheKeyView::OnlineStatus(g) => g,
        CacheKeyView::MusicQueue(g) => g,
        _ => 0,
    }
}

/// A field name inside a guild's container: a kind tag, then the resource's
/// id for per-entity kinds.
#[derive(PartialEq, Eq, Structural, Clone, Copy, Debug)]
pub enum GuildKey {
    Guild,
    Role(u64),
    Channel(u64),
}

impl GuildKey {
    pub open spec fn spec_bytes(self) -> Seq<u8> {
        match self {
            GuildKey::Guild => seq![GUILD_TAG],
            GuildKey::Role(id) => seq![ROLE_TAG] + u64_bytes(id),
            GuildKey::Channel(id) => seq![CHANNEL_TAG] + u64_bytes(id),
        }
    }

    pub open spec fn spec_tag(self) -> u8 {
        match self {
            GuildKey::Guild => GUILD_TAG,
            GuildKey::Role(_) => ROLE_TAG,
            GuildKey::Channel(_) => CHANNEL_TAG,
        }
    }

    /// What a stored field name denotes; `None` for a malformed name or an
    /// unknown tag.
    pub open spec fn spec_decode(b: Seq<u8>) -> Option<GuildKey> {
        if b.len() == 1 && b[0] == GUILD_TAG {
            Some(GuildKey::Guild)
        } else if b.len() == 9 && b[0] == ROLE_TAG {
            Some(GuildKey::Role(u64_at(b, 1)))
        } else if b.len() == 9 && b[0] == CHANNEL_TAG {
            Some(GuildKey::Channel(u64_at(b, 1)))
        } else {
            None
        }
    }

    /// The field name under which this resource is stored.
    pub fn encode(&self) -> (r: Vec<u8>)
        ensures
            r@ == self.spec_bytes(),
    {
        match self {
            GuildKey::Guild => {
                let mut r: Vec<u8> = Vec::new();
                r.push(GUILD_TAG);
                assert(r@ =~= seq![GUILD_TAG]);
                r
            },
            GuildKey::Role(id) => tagged_id(ROLE_TAG, *id),
            GuildKey::Channel(id) => tagged_id(CHANNEL_TAG, *id),
        }
    }

    /// Reads a field name back; unrecognised names give `None`.
    pub fn decode(b: &Vec<u8>) -> (r: Option<GuildKey>)
        ensures
            r == GuildKey::spec_decode(b@),
    {
        if b.len() == 1 && b[0] == GUILD_TAG {
            Some(GuildKey::Guild)
        } else if b.len() == 9 && b[0] == ROLE_TAG {
            Some(GuildKey::Role(read_u64(b, 1)))
        } else if b.len() == 9 && b[0] == CHANNEL_TAG {
            Some(GuildKey::Channel(read_u64(b, 1)))
        } else {
            None
        }
    }

    /// The kind tag of this field name.
    pub fn prefix(&self) -> (r: u8)
        ensures
            r == self.spec_tag(),
            r == self.spec_bytes()[0],
    {
        match self {
            GuildKey::Guild => GUILD_TAG,
            GuildKey::Role(_) => ROLE_TAG,
            GuildKey::Channel(_) => CHANNEL_TAG,
        }
    }
}

/// Decoding the stored form of a field name gives the field name back.
pub proof fn lemma_guild_key_round_trip(k: GuildKey)
    ensures
        GuildKey::spec_decode(k.spec_bytes()) == Some(k),
{
    match k {
        GuildKey::Guild => {},
        GuildKey::Role(id) => {
            lemma_u64_at_append(seq![ROLE_TAG], id, seq![]);
            assert(k.spec_bytes() =~= seq![ROLE_TAG] + u64_bytes(id) + seq![]);
        },
        GuildKey::Channel(id) => {
            lemma_u64_at_append(seq![CHANNEL_TAG], id, seq![]);
            assert(k.spec_bytes() =~= seq![CHANNEL_TAG] + u64_bytes(id) + seq![]);
        },
    }
}

/// Distinct field names are stored under distinct bytes.
pub proof fn lemma_guild_keys_distinct(a: GuildKey, b: GuildKey)
    ensures
        a != b ==> a.spec_bytes() != b.spec_bytes(),
{
    lemma_guild_key_round_trip(a);
    lemma_guild_key_round_trip(b);
}

} // verus!
