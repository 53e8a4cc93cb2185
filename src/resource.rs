use vstd::prelude::*;
use crate::keys::{GuildKey, CHANNEL_TAG, GUILD_TAG, ROLE_TAG};
use crate::records::{ChannelRecord, ChannelView, GuildRecord, GuildView, RoleRecord, RoleView};

verus! {

/// Conversion of a resource into its stored bytes.
pub trait ToProto: View + Sized {
    spec fn proto_bytes(v: Self::V) -> Seq<u8>;

    fn to_proto(&self) -> (r: Vec<u8>)
        ensures
            r@ == Self::proto_bytes(self@),
    ;
}

/// A kind of resource kept in a guild's container: its fixed tag, the field
/// name under which a resource of this kind with a given id lives, and the
/// way back from stored bytes.
pub trait GuildResource: ToProto {
    spec fn spec_prefix() -> u8;

    spec fn spec_key(id: u64) -> GuildKey;

    spec fn spec_id(key: GuildKey) -> Option<u64>;

    spec fn spec_decode(b: Seq<u8>) -> Option<Self::V>;

    fn prefix() -> (r: u8)
        ensures
            r == Self::spec_prefix(),
    ;

    fn key(id: u64) -> (r: GuildKey)
        ensures
            r == Self::spec_key(id),
            r.spec_tag() == Self::spec_prefix(),
    ;

    /// The resource id that a field name of this kind carries.
    fn from_key(key: GuildKey) -> (r: Option<u64>)
        ensures
            r == Self::spec_id(key),
    ;

    fn from_proto(b: &Vec<u8>) -> (r: Option<Self>)
        ensures
            r matches Some(x) ==> Self::spec_decode(b@) == Some(x@),
            r is None ==> Self::spec_decode(b@) is None,
    ;
}

impl ToProto for GuildRecord {
    open spec fn proto_bytes(v: GuildView) -> Seq<u8> {
        v.bytes()
    }

    fn to_proto(&self) -> (r: Vec<u8>) {
        self.encode()
    }
}

impl GuildResource for GuildRecord {
    open spec fn spec_prefix() -> u8 {
        GUILD_TAG
    }

    open spec fn spec_key(id: u64) -> GuildKey {
        GuildKey::Guild
    }

    open spec fn spec_id(key: GuildKey) -> Option<u64> {
        None
    }

    open spec fn spec_decode(b: Seq<u8>) -> Option<GuildView> {
        GuildView::decode(b)
    }

    fn prefix() -> (r: u8) {
        GUILD_TAG
    }

    fn key(id: u64) -> (r: GuildKey) {
        GuildKey::Guild
    }

    /// The guild's field name holds no id: the guild id is the container's.
    fn from_key(key: GuildKey) -> (r: Option<u64>) {
        None
    }

    fn from_proto(b: &Vec<u8>) -> (r: Option<GuildRecord>) {
        GuildRecord::decode(b)
    }
}

impl ToProto for RoleRecord {
    open spec fn proto_bytes(v: RoleView) -> Seq<u8> {
        v.bytes()
    }

    fn to_proto(&self) -> (r: Vec<u8>) {
        self.encode()
    }
}

impl GuildResource for RoleRecord {
    open spec fn spec_prefix() -> u8 {
        ROLE_TAG
    }

    open spec fn spec_key(id: u64) -> GuildKey {
        GuildKey::Role(id)
    }

    open spec fn spec_id(key: GuildKey) -> Option<u64> {
        match key {
            GuildKey::Role(id) => Some(id),
            _ => None,
        }
    }

    open spec fn spec_decode(b: Seq<u8>) -> Option<RoleView> {
        RoleView::decode(b)
    }

    fn prefix() -> (r: u8) {
        ROLE_TAG
    }

    fn key(id: u64) -> (r: GuildKey) {
        GuildKey::Role(id)
    }

    fn from_key(key: GuildKey) -> (r: Option<u64>) {
        match key {
            GuildKey::Role(id) => Some(id),
            _ => None,
        }
    }

    fn from_proto(b: &Vec<u8>) -> (r: Option<RoleRecord>) {
        RoleRecord::decode(b)
    }
}

impl ToProto for ChannelRecord {
    open spec fn proto_bytes(v: ChannelView) -> Seq<u8> {
        v.bytes()
    }

    fn to_proto(&self) -> (r: Vec<u8>) {
        self.encode()
    }
}

impl GuildResource for ChannelRecord {
    open spec fn spec_prefix() -> u8 {
        CHANNEL_TAG
    }

    open spec fn spec_key(id: u64) -> GuildKey {
        GuildKey::Channel(id)
    }

    open spec fn spec_id(key: GuildKey) -> Option<u64> {
        match key {
            GuildKey::Channel(id) => Some(id),
            _ => None,
        }
    }

    open spec fn spec_decode(b: Seq<u8>) -> Option<ChannelView> {
        ChannelView::decode(b)
    }

    fn prefix() -> (r: u8) {
        CHANNEL_TAG
    }

    fn key(id: u64) -> (r: GuildKey) {
        GuildKey::Channel(id)
    }

    fn from_key(key: GuildKey) -> (r: Option<u64>) {
        match key {
            GuildKey::Channel(id) => Some(id),
            _ => None,
        }
    }

    fn from_proto(b: &Vec<u8>) -> (r: Option<ChannelRecord>) {
        ChannelRecord::decode(b)
    }
}

} // verus!
