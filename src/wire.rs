use vstd::prelude::*;
use crate::bytes::{copy_range, lemma_u64_at_append, push_all, push_u64, read_u64, u64_at, u64_bytes};

verus! {

/// A length-prefixed byte string.
pub open spec fn field_bytes(s: Seq<u8>) -> Seq<u8> {
    u64_bytes(s.len() as u64) + s
}

/// A flag byte.
pub open spec fn bool_bytes(b: bool) -> Seq<u8> {
    if b { seq![1u8] } else { seq![0u8] }
}

/// An optional byte string: a presence flag, then the string if present.
pub open spec fn opt_field_bytes(o: Option<Seq<u8>>) -> Seq<u8> {
    match o {
        Some(s) => seq![1u8] + field_bytes(s),
        None => seq![0u8],
    }
}

/// An optional integer: a presence flag, then the integer if present.
pub open spec fn opt_u64_bytes(o: Option<u64>) -> Seq<u8> {
    match o {
        Some(x) => seq![1u8] + u64_bytes(x),
        None => seq![0u8],
    }
}

/// The items of a list, one after another.
pub open spec fn items_bytes(fs: Seq<Seq<u8>>) -> Seq<u8>
    decreases fs.len(),
{
    if fs.len() == 0 {
        Seq::empty()
    } else {
        field_bytes(fs[0]) + items_bytes(fs.drop_first())
    }
}

/// A list of byte strings: its length, then its items.
pub open spec fn list_bytes(fs: Seq<Seq<u8>>) -> Seq<u8> {
    u64_bytes(fs.len() as u64) + items_bytes(fs)
}

pub open spec fn parse_u64(s: Seq<u8>, pos: int) -> Option<(u64, int)> {
    if 0 <= pos && pos + 8 <= s.len() {
        Some((u64_at(s, pos), pos + 8))
    } else {
        None
    }
}

pub open spec fn parse_bool(s: Seq<u8>, pos: int) -> Option<(bool, int)> {
    if 0 <= pos < s.len() && s[pos] == 1 {
        Some((true, pos + 1))
    } else if 0 <= pos < s.len() && s[pos] == 0 {
        Some((false, pos + 1))
    } else {
        None
    }
}

pub open spec fn parse_field(s: Seq<u8>, pos: int) -> Option<(Seq<u8>, int)> {
    match parse_u64(s, pos) {
        Some((n, p)) => if p + n <= s.len() {
            Some((s.subrange(p, p + n), p + n))
        } else {
            None
        },
        None => None,
    }
}

pub open spec fn parse_opt_field(s: Seq<u8>, pos: int) -> Option<(Option<Seq<u8>>, int)> {
    match parse_bool(s, pos) {
        Some((true, p)) => match parse_field(s, p) {
            Some((f, q)) => Some((Some(f), q)),
            None => None,
        },
        Some((false, p)) => Some((None, p)),
        None => None,
    }
}

pub open spec fn parse_opt_u64(s: Seq<u8>, pos: int) -> Option<(Option<u64>, int)> {
    match parse_bool(s, pos) {
        Some((true, p)) => match parse_u64(s, p) {
            Some((x, q)) => Some((Some(x), q)),
            None => None,
        },
        Some((false, p)) => Some((None, p)),
        None => None,
    }
}

pub open spec fn parse_items(s: Seq<u8>, pos: int, n: nat) -> Option<(Seq<Seq<u8>>, int)>
    decreases n,
{
    if n == 0 {
        Some((Seq::empty(), pos))
    } else {
        match parse_field(s, pos) {
            Some((f, p)) => match parse_items(s, p, (n - 1) as nat) {
                Some((fs, q)) => Some((seq![f] + fs, q)),
                None => None,
            },
            None => None,
        }
    }
}

pub open spec fn parse_list(s: Seq<u8>, pos: int) -> Option<(Seq<Seq<u8>>, int)> {
    match parse_u64(s, pos) {
        Some((n, p)) => parse_items(s, p, n as nat),
        None => None,
    }
}

pub proof fn lemma_parse_u64(pre: Seq<u8>, x: u64, post: Seq<u8>)
    ensures
        parse_u64(pre + u64_bytes(x) + post, pre.len() as int) == Some((x, pre.len() as int + 8)),
{
    lemma_u64_at_append(pre, x, post);
}

pub proof fn lemma_parse_bool(pre: Seq<u8>, b: bool, post: Seq<u8>)
    ensures
        parse_bool(pre + bool_bytes(b) + post, pre.len() as int) == Some((b, pre.len() as int + 1)),
{
    assert((pre + bool_bytes(b) + post)[pre.len() as int] == bool_bytes(b)[0]);
}

pub proof fn lemma_parse_field(pre: Seq<u8>, f: Seq<u8>, post: Seq<u8>)
    requires
        f.len() <= u64::MAX,
    ensures
        parse_field(pre + field_bytes(f) + post, pre.len() as int) == Some(
            (f, pre.len() as int + 8 + f.len()),
        ),
{
    let s = pre + field_bytes(f) + post;
    assert(s =~= pre + u64_bytes(f.len() as u64) + (f + post));
    lemma_parse_u64(pre, f.len() as u64, f + post);
    assert(s.subrange(pre.len() as int + 8, pre.len() as int + 8 + f.len()) =~= f);
}

pub proof fn lemma_parse_opt_field(pre: Seq<u8>, o: Option<Seq<u8>>, post: Seq<u8>)
    requires
        o matches Some(f) ==> f.len() <= u64::MAX,
    ensures
        parse_opt_field(pre + opt_field_bytes(o) + post, pre.len() as int) == Some(
            (o, pre.len() as int + opt_field_bytes(o).len()),
        ),
{
    let s = pre + opt_field_bytes(o) + post;
    match o {
        Some(f) => {
            assert(s =~= pre + bool_bytes(true) + (field_bytes(f) + post));
            lemma_parse_bool(pre, true, field_bytes(f) + post);
            assert(s =~= (pre + seq![1u8]) + field_bytes(f) + post);
            lemma_parse_field(pre + seq![1u8], f, post);
        },
        None => {
            assert(s =~= pre + bool_bytes(false) + post);
            lemma_parse_bool(pre, false, post);
        },
    }
}

pub proof fn lemma_parse_opt_u64(pre: Seq<u8>, o: Option<u64>, post: Seq<u8>)
    ensures
        parse_opt_u64(pre + opt_u64_bytes(o) + post, pre.len() as int) == Some(
            (o, pre.len() as int + opt_u64_bytes(o).len()),
        ),
{
    let s = pre + opt_u64_bytes(o) + post;
    match o {
        Some(x) => {
            assert(s =~= pre + bool_bytes(true) + (u64_bytes(x) + post));
            lemma_parse_bool(pre, true, u64_bytes(x) + post);
            assert(s =~= (pre + seq![1u8]) + u64_bytes(x) + post);
            lemma_parse_u64(pre + seq![1u8], x, post);
        },
        None => {
            assert(s =~= pre + bool_bytes(false) + post);
            lemma_parse_bool(pre, false, post);
        },
    }
}

pub proof fn lemma_parse_items(pre: Seq<u8>, fs: Seq<Seq<u8>>, post: Seq<u8>)
    requires
        forall|i: int| 0 <= i < fs.len() ==> (#[trigger] fs[i]).len() <= u64::MAX,
    ensures
        parse_items(pre + items_bytes(fs) + post, pre.len() as int, fs.len()) == Some(
            (fs, pre.len() as int + items_bytes(fs).len()),
        ),
    decreases fs.len(),
{
    if fs.len() > 0 {
        let rest = fs.drop_first();
        let s = pre + items_bytes(fs) + post;
        assert(s =~= pre + field_bytes(fs[0]) + (items_bytes(rest) + post));
        lemma_parse_field(pre, fs[0], items_bytes(rest) + post);
        assert(s =~= (pre + field_bytes(fs[0])) + items_bytes(rest) + post);
        assert forall|i: int| 0 <= i < rest.len() implies (#[trigger] rest[i]).len() <= u64::MAX by {
            assert(rest[i] == fs[i + 1]);
        }
        lemma_parse_items(pre + field_bytes(fs[0]), rest, post);
        assert(seq![fs[0]] + rest =~= fs);
    } else {
        assert(fs =~= Seq::<Seq<u8>>::empty());
    }
}

pub proof fn lemma_parse_list(pre: Seq<u8>, fs: Seq<Seq<u8>>, post: Seq<u8>)
    requires
        fs.len() <= u64::MAX,
        forall|i: int| 0 <= i < fs.len() ==> (#[trigger] fs[i]).len() <= u64::MAX,
    ensures
        parse_list(pre + list_bytes(fs) + post, pre.len() as int) == Some(
            (fs, pre.len() as int + list_bytes(fs).len()),
        ),
{
    let s = pre + list_bytes(fs) + post;
    assert(s =~= pre + u64_bytes(fs.len() as u64) + (items_bytes(fs) + post));
    lemma_parse_u64(pre, fs.len() as u64, items_bytes(fs) + post);
    assert(s =~= (pre + u64_bytes(fs.len() as u64)) + items_bytes(fs) + post);
    lemma_parse_items(pre + u64_bytes(fs.len() as u64), fs, post);
}

pub fn push_bool(out: &mut Vec<u8>, b: bool)
    ensures
        final(out)@ == old(out)@ + bool_bytes(b),
{
    out.push(if b { 1u8 } else { 0u8 });
    assert(final(out)@ =~= old(out)@ + bool_bytes(b));
}

pub fn push_field(out: &mut Vec<u8>, f: &Vec<u8>)
    ensures
        final(out)@ == old(out)@ + field_bytes(f@),
{
    push_u64(out, f.len() as u64);
    push_all(out, f);
    assert(final(out)@ =~= old(out)@ + field_bytes(f@));
}

pub fn push_opt_field(out: &mut Vec<u8>, o: &Option<Vec<u8>>)
    ensures
        final(out)@ == old(out)@ + opt_field_bytes(opt_view(o)),
{
    match o {
        Some(f) => {
            out.push(1u8);
            push_field(out, f);
        },
        None => {
            out.push(0u8);
        },
    }
    assert(final(out)@ =~= old(out)@ + opt_field_bytes(opt_view(o)));
}

pub fn push_opt_u64(out: &mut Vec<u8>, o: Option<u64>)
    ensures
        final(out)@ == old(out)@ + opt_u64_bytes(o),
{
    match o {
        Some(x) => {
            out.push(1u8);
            push_u64(out, x);
        },
        None => {
            out.push(0u8);
        },
    }
    assert(final(out)@ =~= old(out)@ + opt_u64_bytes(o));
}

pub fn push_list(out: &mut Vec<u8>, fs: &Vec<Vec<u8>>)
    ensures
        final(out)@ == old(out)@ + list_bytes(seq_view(fs@)),
{
    let ghost start = out@;
    push_u64(out, fs.len() as u64);
    let ghost mid = out@;
    let mut i: usize = 0;
    assert(seq_view(fs@).subrange(0, fs@.len() as int) =~= seq_view(fs@));
    while i < fs.len()
        invariant
            i <= fs@.len(),
            mid == start + u64_bytes(fs@.len() as u64),
            out@ + items_bytes(seq_view(fs@).subrange(i as int, fs@.len() as int)) == mid
                + items_bytes(seq_view(fs@)),
        decreases fs@.len() - i,
    {
        let ghost rest = seq_view(fs@).subrange(i as int, fs@.len() as int);
        assert(rest.drop_first() =~= seq_view(fs@).subrange(i + 1, fs@.len() as int));
        push_field(out, &fs[i]);
        i = i + 1;
    }
    assert(seq_view(fs@).subrange(i as int, fs@.len() as int) =~= Seq::<Seq<u8>>::empty());
    assert(final(out)@ =~= old(out)@ + list_bytes(seq_view(fs@)));
}

pub open spec fn opt_view(o: &Option<Vec<u8>>) -> Option<Seq<u8>> {
    match o {
        Some(v) => Some(v@),
        None => None,
    }
}

pub open spec fn seq_view(fs: Seq<Vec<u8>>) -> Seq<Seq<u8>> {
    fs.map_values(|v: Vec<u8>| v@)
}

pub fn read_u64_at(s: &Vec<u8>, pos: usize) -> (r: Option<(u64, usize)>)
    ensures
        r matches Some((x, p)) ==> parse_u64(s@, pos as int) == Some((x, p as int)),
        r is None ==> parse_u64(s@, pos as int) is None,
{
    if pos <= s.len() && s.len() - pos >= 8 {
        Some((read_u64(s, pos), pos + 8))
    } else {
        None
    }
}

pub fn read_bool_at(s: &Vec<u8>, pos: usize) -> (r: Option<(bool, usize)>)
    ensures
        r matches Some((b, p)) ==> parse_bool(s@, pos as int) == Some((b, p as int)),
        r is None ==> parse_bool(s@, pos as int) is None,
{
    if pos < s.len() && s[pos] == 1 {
        Some((true, pos + 1))
    } else if pos < s.len() && s[pos] == 0 {
        Some((false, pos + 1))
    } else {
        None
    }
}

pub fn read_field_at(s: &Vec<u8>, pos: usize) -> (r: Option<(Vec<u8>, usize)>)
    ensures
        r matches Some((f, p)) ==> parse_field(s@, pos as int) == Some((f@, p as int)),
        r is None ==> parse_field(s@, pos as int) is None,
{
    match read_u64_at(s, pos) {
        Some((n, p)) => {
            if n <= (s.len() - p) as u64 {
                let end: usize = p + n as usize;
                Some((copy_range(s, p, end), end))
            } else {
                None
            }
        },
        None => None,
    }
}

pub fn read_opt_field_at(s: &Vec<u8>, pos: usize) -> (r: Option<(Option<Vec<u8>>, usize)>)
    ensures
        r matches Some((f, p)) ==> parse_opt_field(s@, pos as int) == Some((opt_view(&f), p as int)),
        r is None ==> parse_opt_field(s@, pos as int) is None,
{
    match read_bool_at(s, pos) {
        Some((true, p)) => match read_field_at(s, p) {
            Some((f, q)) => Some((Some(f), q)),
            None => None,
        },
        Some((false, p)) => Some((None, p)),
        None => None,
    }
}

pub fn read_opt_u64_at(s: &Vec<u8>, pos: usize) -> (r: Option<(Option<u64>, usize)>)
    ensures
        r matches Some((x, p)) ==> parse_opt_u64(s@, pos as int) == Some((x, p as int)),
        r is None ==> parse_opt_u64(s@, pos as int) is None,
{
    match read_bool_at(s, pos) {
        Some((true, p)) => match read_u64_at(s, p) {
            Some((x, q)) => Some((Some(x), q)),
            None => None,
        },
        Some((false, p)) => Some((None, p)),
        None => None,
    }
}

pub fn read_list_at(s: &Vec<u8>, pos: usize) -> (r: Option<(Vec<Vec<u8>>, usize)>)
    ensures
        r matches Some((fs, p)) ==> parse_list(s@, pos as int) == Some((seq_view(fs@), p as int)),
        r is None ==> parse_list(s@, pos as int) is None,
{
    let (n, start) = match read_u64_at(s, pos) {
        Some(x) => x,
        None => {
            return None;
        },
    };
    let mut out: Vec<Vec<u8>> = Vec::new();
    let mut cur: usize = start;
    let mut i: u64 = 0;
    while i < n
        invariant
            i <= n,
            parse_list(s@, pos as int) == match parse_items(s@, cur as int, (n - i) as nat) {
                Some((fs, q)) => Some((seq_view(out@) + fs, q)),
                None => None,
            },
        decreases n - i,
    {
        match read_field_at(s, cur) {
            Some((f, p)) => {
                proof {
                    let ghost old_out = seq_view(out@);
                    let ghost fv = f@;
                    assert(seq_view(out@.push(f)) =~= old_out + seq![fv]);
                    match parse_items(s@, p as int, (n - i - 1) as nat) {
                        Some((fs, q)) => {
                            assert(old_out + (seq![fv] + fs) =~= (old_out + seq![fv]) + fs);
                        },
                        None => {},
                    }
                }
                out.push(f);
                cur = p;
                i = i + 1;
            },
            None => {
                return None;
            },
        }
    }
    assert(seq_view(out@) + Seq::<Seq<u8>>::empty() =~= seq_view(out@));
    Some((out, cur))
}

} // verus!
