use vstd::prelude::*;

verus! {

/// The flag that shows a reply only to the member who asked.
pub const EPHEMERAL: u64 = 64;

/// Why a command could not be served.
#[derive(PartialEq, Eq, Clone, Debug)]
pub enum InteractionError {
    UnknownCommand,
    NotInGuild,
    NotImplemented,
    MissingArgument(String),
    InvalidArgument(String),
    FailedPrecondition(String),
    MissingPermission(String),
    UserError(String),
}

/// An embed of a reply, as the platform's serialised object.
#[derive(Clone, Debug)]
pub struct Embed {
    pub payload: Vec<u8>,
}

/// A component of a reply, as the platform's serialised object.
#[derive(Clone, Debug)]
pub struct Component {
    pub payload: Vec<u8>,
}

/// A reply to an interaction, built step by step.
pub struct Response {
    pub content: Option<String>,
    pub embeds: Vec<Embed>,
    pub flags: Option<u64>,
    pub components: Option<Vec<Component>>,
    pub tts: Option<bool>,
}

impl Response {
    /// An empty reply, visible to everyone.
    pub fn direct() -> (r: Response)
        ensures
            r.content is None,
            r.embeds@.len() == 0,
            r.flags is None,
            r.components is None,
            r.tts is None,
    {
        Response { content: None, embeds: Vec::new(), flags: None, components: None, tts: None }
    }

    /// An empty reply that only the asking member sees.
    pub fn ephemeral() -> (r: Response)
        ensures
            r.content is None,
            r.embeds@.len() == 0,
            r.flags == Some(EPHEMERAL),
            r.components is None,
            r.tts is None,
    {
        let r = Self::direct().flag(EPHEMERAL);
        assert(EPHEMERAL | 0u64 == EPHEMERAL) by (bit_vector);
        r
    }

    /// Sets the text of the reply.
    pub fn content(self, content: String) -> (r: Response)
        ensures
            r.content == Some(content),
            r.embeds@ == self.embeds@,
            r.flags == self.flags,
            r.components == self.components,
            r.tts == self.tts,
    {
        Response { content: Some(content), ..self }
    }

    /// Adds an embed after the others.
    pub fn embed(self, embed: Embed) -> (r: Response)
        ensures
            r.embeds@ == self.embeds@.push(embed),
            r.content == self.content,
            r.flags == self.flags,
            r.components == self.components,
            r.tts == self.tts,
    {
        let mut s = self;
        s.embeds.push(embed);
        s
    }

    /// Adds flags to those already set.
    pub fn flag(self, flags: u64) -> (r: Response)
        ensures
            r.flags == Some(
                flags | match self.flags {
                    Some(f) => f,
                    None => 0u64,
                },
            ),
            r.content == self.content,
            r.embeds@ == self.embeds@,
            r.components == self.components,
            r.tts == self.tts,
    {
        let old_flags = match self.flags {
            Some(f) => f,
            None => 0u64,
        };
        Response { flags: Some(flags | old_flags), ..self }
    }

    /// Adds components after those already set.
    pub fn components(self, components: Vec<Component>) -> (r: Response)
        ensures
            r.components matches Some(cs) && cs@ == match self.components {
                Some(old_cs) => old_cs@ + components@,
                None => components@,
            },
            r.content == self.content,
            r.embeds@ == self.embeds@,
            r.flags == self.flags,
            r.tts == self.tts,
    {
        let mut s = self;
        match s.components {
            Some(mut cs) => {
                let mut extra = components;
                cs.append(&mut extra);
                Response { components: Some(cs), ..s }
            },
            None => Response { components: Some(components), ..s },
        }
    }
}

/// Whether a member's permissions hold every bit of `perms`; a caller with
/// no known permissions holds none.
pub fn has_user_permission(member_permissions: Option<u64>, perms: u64) -> (r: bool)
    ensures
        r == (member_permissions matches Some(p) && p & perms == perms),
{
    match member_permissions {
        Some(p) => p & perms == perms,
        None => false,
    }
}

/// A member's paid subscription tier.
#[derive(PartialEq, Eq, Structural, Clone, Copy, Debug)]
pub enum PremiumType {
    NoPremium,
    NitroClassic,
    Nitro,
    NitroBasic,
}

/// The public flag of an early supporter.
pub const PREMIUM_EARLY_SUPPORTER: u64 = 512;

/// What the approval rules read of a user.
pub struct User {
    pub id: u64,
    pub bot: bool,
    pub premium_type: Option<PremiumType>,
    pub public_flags: Option<u64>,
    pub banner: Option<String>,
    pub avatar: Option<String>,
}

/// An animated avatar's hash starts with `a_`.
pub open spec fn animated(avatar: Seq<char>) -> bool {
    avatar.len() >= 2 && avatar[0] == 'a' && avatar[1] == '_'
}

/// Whether the user has or has had the paid subscription: a tier other than
/// none, a banner, the early-supporter flag, or an animated avatar.
pub fn user_has_nitro(user: &User) -> (r: bool)
    ensures
        r == ((user.premium_type matches Some(p) && p != PremiumType::NoPremium) || user.banner is Some
            || (user.public_flags matches Some(f) && f & PREMIUM_EARLY_SUPPORTER
            == PREMIUM_EARLY_SUPPORTER) || (user.avatar matches Some(a) && animated(a@))),
{
    let premium = match user.premium_type {
        Some(p) => p != PremiumType::NoPremium,
        None => false,
    };
    let flag = match user.public_flags {
        Some(f) => f & PREMIUM_EARLY_SUPPORTER == PREMIUM_EARLY_SUPPORTER,
        None => false,
    };
    let has_banner = user.banner.is_some();
    let animated = match &user.avatar {
        Some(a) => {
            let s = a.as_str();
            s.unicode_len() >= 2 && s.get_char(0) == 'a' && s.get_char(1) == '_'
        },
        None => false,
    };
    premium || has_banner || flag || animated
}

} // verus!
