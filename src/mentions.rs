use vstd::prelude::*;

verus! {

/// Pattern of a user mention; the id is its first group.
pub const USER_MENTION: &'static str = r"<@!?(\d+)>";
/// Pattern of a role mention; the id is its first group.
pub const ROLE_MENTION: &'static str = r"<@&(\d+)>";
/// Pattern of a channel mention; the id is its first group.
pub const CHANNEL_MENTION: &'static str = r"<@#(\d+)>";

/// For each successive non-overlapping match of `pattern` in `text`, the text
/// of its first capture group, if that group took part.
pub uninterp spec fn first_groups(pattern: Seq<char>, text: Seq<char>) -> Seq<Option<Seq<char>>>;

pub open spec fn groups_view(v: Seq<Option<String>>) -> Seq<Option<Seq<char>>> {
    v.map_values(|o: Option<String>| match o {
        Some(s) => Some(s@),
        None => None,
    })
}

/// Relies on `regex::Regex::new` (which fails only on an invalid pattern)
/// and `Regex::captures_iter` with `Captures::get(1)`: the first group of each
/// successive non-overlapping match, in order.
#[verifier::external_body]
fn capture_first_groups(pattern: &str, text: &str) -> (r: Option<Vec<Option<String>>>)
    ensures
        r matches Some(v) ==> groups_view(v@) == first_groups(pattern@, text@),
{
    match regex::Regex::new(pattern) {
        Ok(re) => Some(
            re.captures_iter(text).map(|c| c.get(1).map(|m| m.as_str().to_string())).collect(),
        ),
        Err(_) => None,
    }
}

/// The value of a non-empty string of ASCII digits.
pub open spec fn digits_value(s: Seq<char>) -> int
    decreases s.len(),
{
    if s.len() == 0 {
        0
    } else {
        digits_value(s.drop_last()) * 10 + (s.last() as int - '0' as int)
    }
}

pub open spec fn all_digits(s: Seq<char>) -> bool {
    forall|i: int| 0 <= i < s.len() ==> '0' <= #[trigger] s[i] <= '9'
}

/// The id a decimal string denotes: `None` for an empty string, one with a
/// non-digit, or one whose value does not fit in 64 bits.
pub open spec fn decimal_id(s: Seq<char>) -> Option<u64> {
    if s.len() > 0 && all_digits(s) && digits_value(s) <= u64::MAX {
        Some(digits_value(s) as u64)
    } else {
        None
    }
}

proof fn lemma_digits_value_nonneg(s: Seq<char>)
    requires
        all_digits(s),
    ensures
        digits_value(s) >= 0,
    decreases s.len(),
{
    if s.len() > 0 {
        lemma_digits_value_nonneg(s.drop_last());
    }
}

proof fn lemma_digits_value_grows(s: Seq<char>, n: int)
    requires
        all_digits(s),
        0 <= n <= s.len(),
    ensures
        digits_value(s.subrange(0, n)) <= digits_value(s),
    decreases s.len() - n,
{
    if n < s.len() {
        let t = s.subrange(0, n + 1);
        assert(t.drop_last() =~= s.subrange(0, n));
        lemma_digits_value_nonneg(s.subrange(0, n));
        lemma_digits_value_grows(s, n + 1);
    } else {
        assert(s.subrange(0, n) =~= s);
    }
}

/// Reads a decimal id, as `u64::from_str` does on a string of digits.
pub fn parse_id(s: &str) -> (r: Option<u64>)
    ensures
        r == decimal_id(s@),
{
    let n = s.unicode_len();
    if n == 0 {
        return None;
    }
    let mut acc: u64 = 0;
    let mut i: usize = 0;
    while i < n
        invariant
            n == s@.len(),
            i <= n,
            all_digits(s@.subrange(0, i as int)),
            acc as int == digits_value(s@.subrange(0, i as int)),
        decreases n - i,
    {
        let c = s.get_char(i);
        let ghost pre = s@.subrange(0, i as int + 1);
        assert(pre.drop_last() =~= s@.subrange(0, i as int));
        if c < '0' || c > '9' {
            assert(!all_digits(s@));
            return None;
        }
        let d: u64 = (c as u32 - '0' as u32) as u64;
        if acc > (u64::MAX - d) / 10 {
            proof {
                assert(all_digits(pre));
                assert forall|j: int| 0 <= j < s@.len() && !('0' <= #[trigger] s@[j] <= '9') implies !all_digits(s@) by {}
                if all_digits(s@) {
                    lemma_digits_value_grows(s@, i as int + 1);
                    assert(digits_value(pre) == acc * 10 + d) by (nonlinear_arith)
                        requires digits_value(pre) == digits_value(pre.drop_last()) * 10 + d, acc as int == digits_value(pre.drop_last());
                    assert(acc * 10 + d > u64::MAX) by (nonlinear_arith)
                        requires acc > (u64::MAX - d) / 10, d <= 9;
                }
            }
            return None;
        }
        proof {
            assert(acc * 10 + d <= u64::MAX) by (nonlinear_arith)
                requires acc <= (u64::MAX - d) / 10, d <= 9;
        }
        acc = acc * 10 + d;
        i = i + 1;
        assert(all_digits(s@.subrange(0, i as int)));
    }
    assert(s@.subrange(0, n as int) =~= s@);
    Some(acc)
}

/// The ids of the groups that parse, in order.
pub open spec fn group_ids(gs: Seq<Option<Seq<char>>>) -> Seq<u64>
    decreases gs.len(),
{
    if gs.len() == 0 {
        Seq::empty()
    } else {
        let rest = group_ids(gs.drop_last());
        match gs.last() {
            Some(g) => match decimal_id(g) {
                Some(id) => rest.push(id),
                None => rest,
            },
            None => rest,
        }
    }
}

/// The ids in a list of captured groups, skipping groups that are absent or
/// do not parse.
pub fn ids_of_groups(groups: &Vec<Option<String>>) -> (r: Vec<u64>)
    ensures
        r@ == group_ids(groups_view(groups@)),
{
    let mut r: Vec<u64> = Vec::new();
    let mut i: usize = 0;
    while i < groups.len()
        invariant
            i <= groups@.len(),
            r@ == group_ids(groups_view(groups@.subrange(0, i as int))),
        decreases groups@.len() - i,
    {
        let ghost pre = groups_view(groups@.subrange(0, i as int + 1));
        assert(pre.drop_last() =~= groups_view(groups@.subrange(0, i as int)));
        match &groups[i] {
            Some(g) => match parse_id(g.as_str()) {
                Some(id) => r.push(id),
                None => {},
            },
            None => {},
        }
        i = i + 1;
    }
    assert(groups@.subrange(0, i as int) =~= groups@);
    r
}

fn mention_ids(pattern: &str, text: &str) -> (r: Vec<u64>)
    ensures
        r@ == group_ids(first_groups(pattern@, text@)) || r@.len() == 0,
{
    match capture_first_groups(pattern, text) {
        Some(groups) => ids_of_groups(&groups),
        None => Vec::new(),
    }
}

/// The ids of the users mentioned in `text`, in order.
pub fn get_user_mention_ids(text: &str) -> (r: Vec<u64>)
    ensures
        r@ == group_ids(first_groups(USER_MENTION@, text@)) || r@.len() == 0,
{
    mention_ids(USER_MENTION, text)
}

/// The ids of the roles mentioned in `text`, in order.
pub fn get_role_mention_ids(text: &str) -> (r: Vec<u64>)
    ensures
        r@ == group_ids(first_groups(ROLE_MENTION@, text@)) || r@.len() == 0,
{
    mention_ids(ROLE_MENTION, text)
}

/// The ids of the channels mentioned in `text`, in order.
pub fn get_channel_mention_ids(text: &str) -> (r: Vec<u64>)
    ensures
        r@ == group_ids(first_groups(CHANNEL_MENTION@, text@)) || r@.len() == 0,
{
    mention_ids(CHANNEL_MENTION, text)
}

} // verus!
