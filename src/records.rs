use vstd::prelude::*;
use crate::bytes::{push_u64, u64_bytes};
use crate::wire::{
    bool_bytes, field_bytes, lemma_parse_bool, lemma_parse_field, lemma_parse_list,
    lemma_parse_opt_field, lemma_parse_opt_u64, lemma_parse_u64, list_bytes, opt_field_bytes,
    opt_u64_bytes, opt_view, parse_bool, parse_field, parse_list, parse_opt_field, parse_opt_u64,
    parse_u64, push_bool, push_field, push_list, push_opt_field, push_opt_u64, read_bool_at,
    read_field_at, read_list_at, read_opt_field_at, read_opt_u64_at, read_u64_at, seq_view,
};

verus! {

/// The stored form of a role.
pub struct RoleRecord {
    pub role_id: u64,
    pub name: Vec<u8>,
    pub position: i64,
    pub permissions: u64,
}

pub struct RoleView {
    pub role_id: u64,
    pub name: Seq<u8>,
    pub position: i64,
    pub permissions: u64,
}

impl View for RoleRecord {
    type V = RoleView;

    open spec fn view(&self) -> RoleView {
        RoleView {
            role_id: self.role_id,
            name: self.name@,
            position: self.position,
            permissions: self.permissions,
        }
    }
}

impl RoleView {
    pub open spec fn valid(self) -> bool {
        self.name.len() <= u64::MAX
    }

    pub open spec fn bytes(self) -> Seq<u8> {
        u64_bytes(self.role_id) + field_bytes(self.name) + u64_bytes(self.position as u64)
            + u64_bytes(self.permissions)
    }

    pub open spec fn decode(b: Seq<u8>) -> Option<RoleView> {
        match parse_u64(b, 0) {
            Some((id, at1)) => match parse_field(b, at1) {
                Some((name, at2)) => match parse_u64(b, at2) {
                    Some((pos, at3)) => match parse_u64(b, at3) {
                        Some((perms, _)) => Some(
                            RoleView { role_id: id, name, position: pos as i64, permissions: perms },
                        ),
                        None => None,
                    },
                    None => None,
                },
                None => None,
            },
            None => None,
        }
    }
}

impl RoleRecord {
    pub fn encode(&self) -> (r: Vec<u8>)
        ensures
            r@ == self@.bytes(),
    {
        let mut r: Vec<u8> = Vec::new();
        push_u64(&mut r, self.role_id);
        push_field(&mut r, &self.name);
        push_u64(&mut r, self.position as u64);
        push_u64(&mut r, self.permissions);
        assert(r@ =~= self@.bytes());
        r
    }

    /// Reads a stored role; `None` where the bytes do not start with a role's
    /// stored form. Bytes after it (fields of a later schema) are ignored.
    pub fn decode(b: &Vec<u8>) -> (r: Option<RoleRecord>)
        ensures
            r matches Some(x) ==> RoleView::decode(b@) == Some(x@),
            r is None ==> RoleView::decode(b@) is None,
    {
        let Some((role_id, at1)) = read_u64_at(b, 0) else { return None };
        let Some((name, at2)) = read_field_at(b, at1) else { return None };
        let Some((pos, at3)) = read_u64_at(b, at2) else { return None };
        let Some((permissions, _)) = read_u64_at(b, at3) else { return None };
        Some(RoleRecord { role_id, name, position: pos as i64, permissions })
    }
}

/// Decoding a role's stored form gives the role back.
pub proof fn lemma_role_round_trip(r: RoleView)
    requires
        r.valid(),
    ensures
        RoleView::decode(r.bytes()) == Some(r),
{
    let e = Seq::<u8>::empty();
    let (a, b, c, d) = (
        u64_bytes(r.role_id),
        field_bytes(r.name),
        u64_bytes(r.position as u64),
        u64_bytes(r.permissions),
    );
    let s = r.bytes();
    assert(s =~= e + a + (b + c + d));
    lemma_parse_u64(e, r.role_id, b + c + d);
    assert(s =~= a + b + (c + d));
    lemma_parse_field(a, r.name, c + d);
    assert(s =~= (a + b) + c + d);
    lemma_parse_u64(a + b, r.position as u64, d);
    assert(s =~= (a + b + c) + d + e);
    lemma_parse_u64(a + b + c, r.permissions, e);
    let p = r.position;
    assert((p as u64) as i64 == p) by (bit_vector);
}

/// The stored form of a channel.
pub struct ChannelRecord {
    pub channel_id: u64,
    pub name: Vec<u8>,
}

pub struct ChannelView {
    pub channel_id: u64,
    pub name: Seq<u8>,
}

impl View for ChannelRecord {
    type V = ChannelView;

    open spec fn view(&self) -> ChannelView {
        ChannelView { channel_id: self.channel_id, name: self.name@ }
    }
}

impl ChannelView {
    pub open spec fn valid(self) -> bool {
        self.name.len() <= u64::MAX
    }

    pub open spec fn bytes(self) -> Seq<u8> {
        u64_bytes(self.channel_id) + field_bytes(self.name)
    }

    pub open spec fn decode(b: Seq<u8>) -> Option<ChannelView> {
        match parse_u64(b, 0) {
            Some((id, at1)) => match parse_field(b, at1) {
                Some((name, _)) => Some(ChannelView { channel_id: id, name }),
                None => None,
            },
            None => None,
        }
    }
}

impl ChannelRecord {
    pub fn encode(&self) -> (r: Vec<u8>)
        ensures
            r@ == self@.bytes(),
    {
        let mut r: Vec<u8> = Vec::new();
        push_u64(&mut r, self.channel_id);
        push_field(&mut r, &self.name);
        assert(r@ =~= self@.bytes());
        r
    }

    /// Reads a stored channel; `None` where the bytes do not start with a
    /// channel's stored form. Bytes after it are ignored.
    pub fn decode(b: &Vec<u8>) -> (r: Option<ChannelRecord>)
        ensures
            r matches Some(x) ==> ChannelView::decode(b@) == Some(x@),
            r is None ==> ChannelView::decode(b@) is None,
    {
        let Some((channel_id, at1)) = read_u64_at(b, 0) else { return None };
        let Some((name, _)) = read_field_at(b, at1) else { return None };
        Some(ChannelRecord { channel_id, name })
    }
}

/// Decoding a channel's stored form gives the channel back.
pub proof fn lemma_channel_round_trip(c: ChannelView)
    requires
        c.valid(),
    ensures
        ChannelView::decode(c.bytes()) == Some(c),
{
    let e = Seq::<u8>::empty();
    let (a, b) = (u64_bytes(c.channel_id), field_bytes(c.name));
    let s = c.bytes();
    assert(s =~= e + a + (b + e));
    lemma_parse_u64(e, c.channel_id, b + e);
    assert(s =~= a + b + e);
    lemma_parse_field(a, c.name, e);
}

/// The stored form of a guild's own metadata.
pub struct GuildRecord {
    pub id: u64,
    pub name: Vec<u8>,
    pub features: Vec<Vec<u8>>,
    pub owner_id: u64,
    pub vanity_url_code: Option<Vec<u8>>,
}

pub struct GuildView {
    pub id: u64,
    pub name: Seq<u8>,
    pub features: Seq<Seq<u8>>,
    pub owner_id: u64,
    pub vanity_url_code: Option<Seq<u8>>,
}

impl View for GuildRecord {
    type V = GuildView;

    open spec fn view(&self) -> GuildView {
        GuildView {
            id: self.id,
            name: self.name@,
            features: seq_view(self.features@),
            owner_id: self.owner_id,
            vanity_url_code: opt_view(&self.vanity_url_code),
        }
    }
}

impl GuildView {
    pub open spec fn valid(self) -> bool {
        &&& self.name.len() <= u64::MAX
        &&& self.features.len() <= u64::MAX
        &&& forall|i: int| 0 <= i < self.features.len() ==> (#[trigger] self.features[i]).len() <= u64::MAX
        &&& self.vanity_url_code matches Some(v) ==> v.len() <= u64::MAX
    }

    pub open spec fn bytes(self) -> Seq<u8> {
        u64_bytes(self.id) + field_bytes(self.name) + list_bytes(self.features) + u64_bytes(
            self.owner_id,
        ) + opt_field_bytes(self.vanity_url_code)
    }

    pub open spec fn decode(b: Seq<u8>) -> Option<GuildView> {
        match parse_u64(b, 0) {
            Some((id, at1)) => match parse_field(b, at1) {
                Some((name, at2)) => match parse_list(b, at2) {
                    Some((features, at3)) => match parse_u64(b, at3) {
                        Some((owner_id, at4)) => if at4 == b.len() {
                            Some(GuildView { id, name, features, owner_id, vanity_url_code: None })
                        } else {
                            match parse_opt_field(b, at4) {
                                Some((vanity_url_code, _)) => Some(
                                    GuildView { id, name, features, owner_id, vanity_url_code },
                                ),
                                None => None,
                            }
                        },
                        None => None,
                    },
                    None => None,
                },
                None => None,
            },
            None => None,
        }
    }
}

impl GuildRecord {
    pub fn encode(&self) -> (r: Vec<u8>)
        ensures
            r@ == self@.bytes(),
    {
        let mut r: Vec<u8> = Vec::new();
        push_u64(&mut r, self.id);
        push_field(&mut r, &self.name);
        push_list(&mut r, &self.features);
        push_u64(&mut r, self.owner_id);
        push_opt_field(&mut r, &self.vanity_url_code);
        assert(r@ =~= self@.bytes());
        r
    }

    /// Reads a stored guild; `None` where the bytes do not start with a guild's
    /// stored form. A record that ends before the vanity code (an earlier
    /// schema) has none; bytes after the last field are ignored.
    pub fn decode(b: &Vec<u8>) -> (r: Option<GuildRecord>)
        ensures
            r matches Some(x) ==> GuildView::decode(b@) == Some(x@),
            r is None ==> GuildView::decode(b@) is None,
    {
        let Some((id, at1)) = read_u64_at(b, 0) else { return None };
        let Some((name, at2)) = read_field_at(b, at1) else { return None };
        let Some((features, at3)) = read_list_at(b, at2) else { return None };
        let Some((owner_id, at4)) = read_u64_at(b, at3) else { return None };
        if at4 == b.len() {
            return Some(GuildRecord { id, name, features, owner_id, vanity_url_code: None });
        }
        let Some((vanity_url_code, _)) = read_opt_field_at(b, at4) else { return None };
        Some(GuildRecord { id, name, features, owner_id, vanity_url_code })
    }
}

/// Decoding a guild's stored form gives the guild back.
#[verifier::rlimit(60)]
pub proof fn lemma_guild_round_trip(g: GuildView)
    requires
        g.valid(),
    ensures
        GuildView::decode(g.bytes()) == Some(g),
{
    let e = Seq::<u8>::empty();
    let (a, b, c, d, f) = (
        u64_bytes(g.id),
        field_bytes(g.name),
        list_bytes(g.features),
        u64_bytes(g.owner_id),
        opt_field_bytes(g.vanity_url_code),
    );
    let s = g.bytes();
    assert(s =~= e + a + (b + c + d + f));
    lemma_parse_u64(e, g.id, b + c + d + f);
    assert(s =~= a + b + (c + d + f));
    lemma_parse_field(a, g.name, c + d + f);
    assert(s =~= (a + b) + c + (d + f));
    lemma_parse_list(a + b, g.features, d + f);
    assert(s =~= (a + b + c) + d + f);
    lemma_parse_u64(a + b + c, g.owner_id, f);
    assert(s =~= (a + b + c + d) + f + e);
    lemma_parse_opt_field(a + b + c + d, g.vanity_url_code, e);
}

/// The stored form of a chat message and its author.
pub struct MessageRecord {
    pub id: u64,
    pub channel_id: u64,
    pub guild_id: Option<u64>,
    pub content: Vec<u8>,
    pub author_id: u64,
    pub author_name: Vec<u8>,
    pub discriminator: u64,
    pub bot: bool,
    pub avatar: Option<Vec<u8>>,
}

pub struct MessageView {
    pub id: u64,
    pub channel_id: u64,
    pub guild_id: Option<u64>,
    pub content: Seq<u8>,
    pub author_id: u64,
    pub author_name: Seq<u8>,
    pub discriminator: u64,
    pub bot: bool,
    pub avatar: Option<Seq<u8>>,
}

impl View for MessageRecord {
    type V = MessageView;

    open spec fn view(&self) -> MessageView {
        MessageView {
            id: self.id,
            channel_id: self.channel_id,
            guild_id: self.guild_id,
            content: self.content@,
            author_id: self.author_id,
            author_name: self.author_name@,
            discriminator: self.discriminator,
            bot: self.bot,
            avatar: opt_view(&self.avatar),
        }
    }
}

impl MessageView {
    pub open spec fn valid(self) -> bool {
        &&& self.content.len() <= u64::MAX
        &&& self.author_name.len() <= u64::MAX
        &&& self.avatar matches Some(v) ==> v.len() <= u64::MAX
    }

    pub open spec fn bytes(self) -> Seq<u8> {
        u64_bytes(self.id) + u64_bytes(self.channel_id) + opt_u64_bytes(self.guild_id)
            + field_bytes(self.content) + u64_bytes(self.author_id) + field_bytes(
            self.author_name,
        ) + u64_bytes(self.discriminator) + bool_bytes(self.bot) + opt_field_bytes(self.avatar)
    }

    pub open spec fn decode(b: Seq<u8>) -> Option<MessageView> {
        match parse_u64(b, 0) {
            Some((id, at1)) => match parse_u64(b, at1) {
                Some((channel_id, at2)) => match parse_opt_u64(b, at2) {
                    Some((guild_id, at3)) => match parse_field(b, at3) {
                        Some((content, at4)) => match parse_u64(b, at4) {
                            Some((author_id, at5)) => match parse_field(b, at5) {
                                Some((author_name, at6)) => match parse_u64(b, at6) {
                                    Some((discriminator, at7)) => match parse_bool(b, at7) {
                                        Some((bot, at8)) => if at8 == b.len() {
                                            Some(
                                                MessageView {
                                                    id,
                                                    channel_id,
                                                    guild_id,
                                                    content,
                                                    author_id,
                                                    author_name,
                                                    discriminator,
                                                    bot,
                                                    avatar: None,
                                                },
                                            )
                                        } else {
                                            match parse_opt_field(b, at8) {
                                                Some((avatar, _)) => Some(
                                                    MessageView {
                                                        id,
                                                        channel_id,
                                                        guild_id,
                                                        content,
                                                        author_id,
                                                        author_name,
                                                        discriminator,
                                                        bot,
                                                        avatar,
                                                    },
                                                ),
                                                None => None,
                                            }
                                        },
                                        None => None,
                                    },
                                    None => None,
                                },
                                None => None,
                            },
                            None => None,
                        },
                        None => None,
                    },
                    None => None,
                },
                None => None,
            },
            None => None,
        }
    }
}

impl MessageRecord {
    pub fn encode(&self) -> (r: Vec<u8>)
        ensures
            r@ == self@.bytes(),
    {
        let mut r: Vec<u8> = Vec::new();
        push_u64(&mut r, self.id);
        push_u64(&mut r, self.channel_id);
        push_opt_u64(&mut r, self.guild_id);
        push_field(&mut r, &self.content);
        push_u64(&mut r, self.author_id);
        push_field(&mut r, &self.author_name);
        push_u64(&mut r, self.discriminator);
        push_bool(&mut r, self.bot);
        push_opt_field(&mut r, &self.avatar);
        assert(r@ =~= self@.bytes());
        r
    }

    /// Reads a stored message; `None` where the bytes do not start with a
    /// message's stored form. A record that ends before the avatar (an earlier
    /// schema) has none; bytes after the last field are ignored.
    pub fn decode(b: &Vec<u8>) -> (r: Option<MessageRecord>)
        ensures
            r matches Some(x) ==> MessageView::decode(b@) == Some(x@),
            r is None ==> MessageView::decode(b@) is None,
    {
        let Some((id, at1)) = read_u64_at(b, 0) else { return None };
        let Some((channel_id, at2)) = read_u64_at(b, at1) else { return None };
        let Some((guild_id, at3)) = read_opt_u64_at(b, at2) else { return None };
        let Some((content, at4)) = read_field_at(b, at3) else { return None };
        let Some((author_id, at5)) = read_u64_at(b, at4) else { return None };
        let Some((author_name, at6)) = read_field_at(b, at5) else { return None };
        let Some((discriminator, at7)) = read_u64_at(b, at6) else { return None };
        let Some((bot, at8)) = read_bool_at(b, at7) else { return None };
        let avatar = if at8 == b.len() {
            None
        } else {
            let Some((avatar, _)) = read_opt_field_at(b, at8) else { return None };
            avatar
        };
        Some(
            MessageRecord {
                id,
                channel_id,
                guild_id,
                content,
                author_id,
                author_name,
                discriminator,
                bot,
                avatar,
            },
        )
    }
}

/// Decoding a message's stored form gives the message back.
#[verifier::rlimit(100)]
pub proof fn lemma_message_round_trip(m: MessageView)
    requires
        m.valid(),
    ensures
        MessageView::decode(m.bytes()) == Some(m),
{
    let e = Seq::<u8>::empty();
    let a = u64_bytes(m.id);
    let b = u64_bytes(m.channel_id);
    let c = opt_u64_bytes(m.guild_id);
    let d = field_bytes(m.content);
    let f = u64_bytes(m.author_id);
    let g = field_bytes(m.author_name);
    let h = u64_bytes(m.discriminator);
    let i = bool_bytes(m.bot);
    let j = opt_field_bytes(m.avatar);
    let s = m.bytes();
    assert(s =~= e + a + (b + c + d + f + g + h + i + j));
    lemma_parse_u64(e, m.id, b + c + d + f + g + h + i + j);
    assert(s =~= a + b + (c + d + f + g + h + i + j));
    lemma_parse_u64(a, m.channel_id, c + d + f + g + h + i + j);
    assert(s =~= (a + b) + c + (d + f + g + h + i + j));
    lemma_parse_opt_u64(a + b, m.guild_id, d + f + g + h + i + j);
    assert(s =~= (a + b + c) + d + (f + g + h + i + j));
    lemma_parse_field(a + b + c, m.content, f + g + h + i + j);
    assert(s =~= (a + b + c + d) + f + (g + h + i + j));
    lemma_parse_u64(a + b + c + d, m.author_id, g + h + i + j);
    assert(s =~= (a + b + c + d + f) + g + (h + i + j));
    lemma_parse_field(a + b + c + d + f, m.author_name, h + i + j);
    assert(s =~= (a + b + c + d + f + g) + h + (i + j));
    lemma_parse_u64(a + b + c + d + f + g, m.discriminator, i + j);
    assert(s =~= (a + b + c + d + f + g + h) + i + j);
    lemma_parse_bool(a + b + c + d + f + g + h, m.bot, j);
    assert(s =~= (a + b + c + d + f + g + h + i) + j + e);
    lemma_parse_opt_field(a + b + c + d + f + g + h + i, m.avatar, e);
}

} // verus!
