use vstd::prelude::*;
use crate::records::{GuildView, RoleRecord, RoleView};
use crate::guild::views;

verus! {

/// The administrator bit.
pub const ADMINISTRATOR: u64 = 8;
/// The permission to send messages.
pub const SEND_MESSAGES: u64 = 2048;
/// Every defined permission bit.
pub const ALL_PERMISSIONS: u64 = 0x1FF_FFFF_FFFF;
/// No permission at all.
pub const NO_PERMISSIONS: u64 = 0;

/// The union of the roles' defined permission bits.
pub open spec fn permission_union(roles: Seq<RoleView>) -> u64
    decreases roles.len(),
{
    if roles.len() == 0 {
        0
    } else {
        permission_union(roles.drop_last()) | (roles.last().permissions & ALL_PERMISSIONS)
    }
}

/// The permissions that a union of bits grants: every permission once the
/// administrator bit is in it.
pub open spec fn effective(bits: u64) -> u64 {
    if bits & ADMINISTRATOR != 0 {
        ALL_PERMISSIONS
    } else {
        bits
    }
}

/// What a member with the given roles may do in a guild: nothing if the guild
/// is unknown, everything for its owner, else what the roles grant.
pub open spec fn member_permissions(guild: Option<GuildView>, user_id: u64, roles: Seq<RoleView>) -> u64 {
    match guild {
        None => NO_PERMISSIONS,
        Some(g) => if g.owner_id == user_id {
            ALL_PERMISSIONS
        } else {
            effective(permission_union(roles))
        },
    }
}

/// `a` ranks below `b`: by position, then by id.
pub open spec fn role_below(a: RoleView, b: RoleView) -> bool {
    a.position < b.position || (a.position == b.position && a.role_id < b.role_id)
}

/// `i` is where the highest role stands: no role ranks above it, and none
/// after it ranks the same.
pub open spec fn is_highest(roles: Seq<RoleView>, i: int) -> bool {
    &&& 0 <= i < roles.len()
    &&& forall|j: int| 0 <= j < roles.len() ==> !role_below(roles[i], #[trigger] roles[j])
    &&& forall|j: int| i < j < roles.len() ==> role_below(#[trigger] roles[j], roles[i])
}

fn below(a: &RoleRecord, b: &RoleRecord) -> (r: bool)
    ensures
        r == role_below(a@, b@),
{
    a.position < b.position || (a.position == b.position && a.role_id < b.role_id)
}

/// The roles of one member, used to work out what the member may do.
pub struct RoleSet {
    pub roles: Vec<RoleRecord>,
}

impl RoleSet {
    pub open spec fn role_views(&self) -> Seq<RoleView> {
        views(self.roles@)
    }

    pub fn new(roles: Vec<RoleRecord>) -> (r: RoleSet)
        ensures
            r.roles@ == roles@,
    {
        RoleSet { roles }
    }

    fn highest_at(&self) -> (r: Option<usize>)
        ensures
            self.roles@.len() == 0 <==> r is None,
            r matches Some(i) ==> is_highest(self.role_views(), i as int),
    {
        if self.roles.len() == 0 {
            return None;
        }
        let ghost rv = self.role_views();
        let mut best: usize = 0;
        let mut i: usize = 1;
        while i < self.roles.len()
            invariant
                rv == self.role_views(),
                1 <= i <= self.roles@.len(),
                best < i,
                forall|j: int| 0 <= j < i ==> !role_below(rv[best as int], #[trigger] rv[j]),
                forall|j: int| best < j < i ==> role_below(#[trigger] rv[j], rv[best as int]),
            decreases self.roles@.len() - i,
        {
            if !below(&self.roles[i], &self.roles[best]) {
                best = i;
            }
            i = i + 1;
        }
        Some(best)
    }

    /// The highest role, or `None` for an empty set.
    pub fn highest(&self) -> (r: Option<&RoleRecord>)
        ensures
            self.roles@.len() == 0 <==> r is None,
            r matches Some(x) ==> exists|i: int| is_highest(self.role_views(), i) && self.roles@[i] == *x,
    {
        match self.highest_at() {
            Some(i) => Some(&self.roles[i]),
            None => None,
        }
    }

    /// Every permission the roles grant together; every permission at all
    /// when the administrator bit is among them.
    pub fn guild_permissions(&self) -> (r: u64)
        ensures
            r == effective(permission_union(self.role_views())),
    {
        let ghost rv = self.role_views();
        let mut acc: u64 = 0;
        let mut i: usize = 0;
        while i < self.roles.len()
            invariant
                rv == self.role_views(),
                i <= self.roles@.len(),
                acc == permission_union(rv.subrange(0, i as int)),
            decreases self.roles@.len() - i,
        {
            assert(rv.subrange(0, i as int + 1).drop_last() =~= rv.subrange(0, i as int));
            acc = acc | (self.roles[i].permissions & ALL_PERMISSIONS);
            i = i + 1;
        }
        assert(rv.subrange(0, i as int) =~= rv);
        if acc & ADMINISTRATOR != 0 {
            ALL_PERMISSIONS
        } else {
            acc
        }
    }

    /// Orders two role sets by their highest roles; an empty set is below any
    /// other.
    pub fn compare(&self, other: &RoleSet) -> (r: std::cmp::Ordering)
        ensures
            self.roles@.len() == 0 && other.roles@.len() == 0 ==> r == std::cmp::Ordering::Equal,
            self.roles@.len() == 0 && other.roles@.len() > 0 ==> r == std::cmp::Ordering::Less,
            self.roles@.len() > 0 && other.roles@.len() == 0 ==> r == std::cmp::Ordering::Greater,
            self.roles@.len() > 0 && other.roles@.len() > 0 ==> exists|i: int, j: int|
                is_highest(self.role_views(), i) && is_highest(other.role_views(), j) && (
                if role_below(self.role_views()[i], other.role_views()[j]) {
                    r == std::cmp::Ordering::Less
                } else if role_below(other.role_views()[j], self.role_views()[i]) {
                    r == std::cmp::Ordering::Greater
                } else {
                    r == std::cmp::Ordering::Equal
                }),
    {
        match (self.highest_at(), other.highest_at()) {
            (Some(i), Some(j)) => {
                let (a, b) = (&self.roles[i], &other.roles[j]);
                assert(self.role_views()[i as int] == a@ && other.role_views()[j as int] == b@);
                assert(is_highest(self.role_views(), i as int) && is_highest(other.role_views(), j as int));
                if below(a, b) {
                    std::cmp::Ordering::Less
                } else if below(b, a) {
                    std::cmp::Ordering::Greater
                } else {
                    std::cmp::Ordering::Equal
                }
            },
            (Some(_), None) => std::cmp::Ordering::Greater,
            (None, Some(_)) => std::cmp::Ordering::Less,
            (None, None) => std::cmp::Ordering::Equal,
        }
    }
}

/// The role ids whose records decide a member's permissions: the member's own
/// roles, then the guild's implicit role, whose id is the guild's.
pub fn permission_role_ids(guild_id: u64, role_ids: &Vec<u64>) -> (r: Vec<u64>)
    ensures
        r@ == role_ids@.push(guild_id),
{
    let mut r: Vec<u64> = Vec::new();
    let mut i: usize = 0;
    while i < role_ids.len()
        invariant
            i <= role_ids@.len(),
            r@ == role_ids@.subrange(0, i as int),
        decreases role_ids@.len() - i,
    {
        r.push(role_ids[i]);
        i = i + 1;
        assert(r@ =~= role_ids@.subrange(0, i as int));
    }
    assert(role_ids@.subrange(0, i as int) =~= role_ids@);
    r.push(guild_id);
    r
}

/// The owner of a guild holds every permission, whatever roles it has, even none.
pub proof fn lemma_owner_override(g: GuildView, roles: Seq<RoleView>)
    ensures
        member_permissions(Some(g), g.owner_id, roles) == ALL_PERMISSIONS,
{
}

/// Roles whose union holds the administrator bit grant every permission.
pub proof fn lemma_administrator_override(g: GuildView, user_id: u64, roles: Seq<RoleView>)
    requires
        permission_union(roles) & ADMINISTRATOR != 0,
    ensures
        member_permissions(Some(g), user_id, roles) == ALL_PERMISSIONS,
{
}

/// A guild that is not stored grants nothing.
pub proof fn lemma_unknown_guild_grants_nothing(user_id: u64, roles: Seq<RoleView>)
    ensures
        member_permissions(None, user_id, roles) == NO_PERMISSIONS,
{
}

} // verus!
