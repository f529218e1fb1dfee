use vstd::prelude::*;

verus! {

/// Characters with Unicode's `White_Space` property.
pub open spec fn is_white_space(c: char) -> bool {
    let u = c as u32;
    (0x9 <= u && u <= 0xd) || u == 0x20 || u == 0x85 || u == 0xa0 || u == 0x1680 || (0x2000 <= u
        && u <= 0x200a) || u == 0x2028 || u == 0x2029 || u == 0x202f || u == 0x205f || u == 0x3000
}

/// The pieces of `s` between semicolons, in order, as `str::split(';')` yields
/// them: `n` semicolons give `n + 1` pieces, some of which may be empty.
pub open spec fn pieces(s: Seq<char>) -> Seq<Seq<char>>
    decreases s.len(),
{
    if s.len() == 0 {
        seq![Seq::empty()]
    } else {
        let front = pieces(s.drop_last());
        if s.last() == ';' {
            front.push(Seq::empty())
        } else {
            front.update(front.len() - 1, front.last().push(s.last()))
        }
    }
}

/// `s` without its leading white space.
pub open spec fn trim_start(s: Seq<char>) -> Seq<char>
    decreases s.len(),
{
    if s.len() > 0 && is_white_space(s[0]) {
        trim_start(s.drop_first())
    } else {
        s
    }
}

/// `s` without its trailing white space.
pub open spec fn trim_end(s: Seq<char>) -> Seq<char>
    decreases s.len(),
{
    if s.len() > 0 && is_white_space(s.last()) {
        trim_end(s.drop_last())
    } else {
        s
    }
}

/// `s` without white space at either end.
pub open spec fn trim(s: Seq<char>) -> Seq<char> {
    trim_end(trim_start(s))
}

/// The value that one piece of a cookie string gives for `name`: what follows
/// `name=` when the trimmed piece starts with it.
pub open spec fn entry_value(piece: Seq<char>, name: Seq<char>) -> Option<Seq<char>> {
    let e = trim(piece);
    let k = name.len();
    if e.len() > k && e.take(k as int) == name && e[k as int] == '=' {
        Some(e.skip(k + 1 as int))
    } else {
        None
    }
}

/// The value for `name` of the first piece from index `k` on that has one.
pub open spec fn lookup_from(ps: Seq<Seq<char>>, name: Seq<char>, k: int) -> Option<Seq<char>>
    decreases ps.len() - k,
{
    if k < 0 || k >= ps.len() {
        None
    } else {
        match entry_value(ps[k], name) {
            Some(v) => Some(v),
            None => lookup_from(ps, name, k + 1),
        }
    }
}

/// The value of the cookie `name` in a document's cookie string
/// (`a=1; b=2`): that of the first piece that names it, if any.
pub open spec fn cookie_value(cookies: Seq<char>, name: Seq<char>) -> Option<Seq<char>> {
    lookup_from(pieces(cookies), name, 0)
}

/// The characters of an optional string.
pub open spec fn opt_chars(o: Option<String>) -> Option<Seq<char>> {
    match o {
        Some(s) => Some(s@),
        None => None,
    }
}

/// The string that sets cookie `name` to `value`, expiring at `expires`, for
/// the whole site.
pub open spec fn set_string(name: Seq<char>, value: Seq<char>, expires: Seq<char>) -> Seq<char> {
    name + seq!['='] + value + seq![';', ' '] + seq!['e', 'x', 'p', 'i', 'r', 'e', 's', '=']
        + expires + seq![';', ' ', 'p', 'a', 't', 'h', '=', '/']
}

/// Relies on `char::is_whitespace`: true exactly for the characters with
/// Unicode's `White_Space` property.
#[verifier::external_body]
fn is_whitespace(c: char) -> (r: bool)
    ensures
        r == is_white_space(c),
{
    c.is_whitespace()
}

/// Relies on `str::chars`, collected into a `Vec`: the characters of `s` in order.
#[verifier::external_body]
fn chars_of(s: &str) -> (r: Vec<char>)
    ensures
        r@ == s@,
{
    s.chars().collect()
}

/// Relies on `String`'s `FromIterator<char>`: the string of these characters
/// in order.
#[verifier::external_body]
fn string_of(cs: &Vec<char>) -> (r: String)
    ensures
        r@ == cs@,
{
    cs.iter().collect()
}

proof fn lemma_pieces_nonempty(s: Seq<char>)
    ensures
        pieces(s).len() >= 1,
    decreases s.len(),
{
    if s.len() > 0 {
        lemma_pieces_nonempty(s.drop_last());
    }
}

/// Splits `s` at its semicolons, as `pieces` describes.
fn split_pieces(s: &Vec<char>) -> (r: Vec<Vec<char>>)
    ensures
        r@.len() == pieces(s@).len(),
        forall|j: int| 0 <= j < r@.len() ==> (#[trigger] r@[j])@ == pieces(s@)[j],
{
    let mut done: Vec<Vec<char>> = Vec::new();
    let mut cur: Vec<char> = Vec::new();
    let mut i: usize = 0;
    assert(s@.take(0) =~= Seq::<char>::empty());
    while i < s.len()
        invariant
            i <= s@.len(),
            done@.len() + 1 == pieces(s@.take(i as int)).len(),
            forall|j: int| 0 <= j < done@.len() ==> (#[trigger] done@[j])@ == pieces(
                s@.take(i as int),
            )[j],
            cur@ == pieces(s@.take(i as int)).last(),
        decreases s@.len() - i,
    {
        let c = s[i];
        let ghost before = s@.take(i as int);
        proof {
            assert(s@.take(i + 1).drop_last() =~= before);
            lemma_pieces_nonempty(before);
        }
        if c == ';' {
            done.push(cur);
            cur = Vec::new();
        } else {
            cur.push(c);
        }
        i = i + 1;
    }
    assert(s@.take(s@.len() as int) =~= s@);
    done.push(cur);
    done
}

/// The start and end of `v` without white space at either end.
fn trim_bounds(v: &Vec<char>) -> (r: (usize, usize))
    ensures
        r.0 <= r.1 <= v@.len(),
        v@.subrange(r.0 as int, r.1 as int) == trim(v@),
{
    let n = v.len();
    let mut lo: usize = 0;
    assert(v@.subrange(0, n as int) =~= v@);
    while lo < n && is_whitespace(v[lo])
        invariant
            lo <= n == v@.len(),
            trim_start(v@) == trim_start(v@.subrange(lo as int, n as int)),
        decreases n - lo,
    {
        assert(v@.subrange(lo as int, n as int).drop_first() =~= v@.subrange(
            lo + 1,
            n as int,
        ));
        lo = lo + 1;
    }
    let mut hi: usize = n;
    while hi > lo && is_whitespace(v[hi - 1])
        invariant
            lo <= hi <= n == v@.len(),
            trim_start(v@) == v@.subrange(lo as int, n as int),
            trim(v@) == trim_end(v@.subrange(lo as int, hi as int)),
        decreases hi - lo,
    {
        assert(v@.subrange(lo as int, hi as int).drop_last() =~= v@.subrange(
            lo as int,
            hi - 1,
        ));
        hi = hi - 1;
    }
    (lo, hi)
}

/// The value that `piece` gives for `name`, as `entry_value` describes.
fn piece_value(piece: &Vec<char>, name: &Vec<char>) -> (r: Option<String>)
    ensures
        opt_chars(r) == entry_value(piece@, name@),
{
    let (lo, hi) = trim_bounds(piece);
    let ghost e = trim(piece@);
    let k = name.len();
    if hi - lo <= k {
        return None;
    }
    let mut i: usize = 0;
    while i < k
        invariant
            i <= k == name@.len(),
            k < hi - lo,
            lo <= hi <= piece@.len(),
            e == piece@.subrange(lo as int, hi as int),
            e == trim(piece@),
            e.take(i as int) == name@.take(i as int),
        decreases k - i,
    {
        if piece[lo + i] != name[i] {
            assert(e[i as int] == piece@[lo + i]);
            assert(e.take(k as int)[i as int] != name@[i as int]);
            assert(name@.take(k as int) =~= name@);
            assert(e.take(k as int) != name@);
            return None;
        }
        assert(e.take(i + 1) =~= e.take(i as int).push(e[i as int]));
        assert(name@.take(i + 1) =~= name@.take(i as int).push(name@[i as int]));
        i = i + 1;
    }
    assert(name@.take(k as int) =~= name@);
    if piece[lo + k] != '=' {
        return None;
    }
    let mut out: Vec<char> = Vec::new();
    let mut j: usize = lo + k + 1;
    while j < hi
        invariant
            lo + k + 1 <= j <= hi <= piece@.len(),
            out@ == piece@.subrange(lo + k + 1, j as int),
        decreases hi - j,
    {
        out.push(piece[j]);
        assert(out@ =~= piece@.subrange(lo + k + 1, j + 1));
        j = j + 1;
    }
    assert(out@ =~= e.skip(k + 1));
    Some(string_of(&out))
}

/// The value of the cookie `name` in a document's cookie string such as
/// `a=1; b=2`: the pieces between semicolons are trimmed, and the first that
/// starts with `name=` gives what follows it.
pub fn find_cookie(cookies: &str, name: &str) -> (r: Option<String>)
    ensures
        opt_chars(r) == cookie_value(cookies@, name@),
{
    let cs = chars_of(cookies);
    let nm = chars_of(name);
    let ps = split_pieces(&cs);
    let ghost all = pieces(cs@);
    let mut k: usize = 0;
    while k < ps.len()
        invariant
            k <= ps@.len() == all.len(),
            cs@ == cookies@,
            nm@ == name@,
            all == pieces(cs@),
            forall|j: int| 0 <= j < ps@.len() ==> (#[trigger] ps@[j])@ == all[j],
            lookup_from(all, nm@, 0) == lookup_from(all, nm@, k as int),
        decreases ps@.len() - k,
    {
        let r = piece_value(&ps[k], &nm);
        assert(ps@[k as int]@ == all[k as int]);
        if r.is_some() {
            assert(lookup_from(all, nm@, k as int) == entry_value(all[k as int], nm@));

            return r;
        }
        k = k + 1;
    }
    None
}

} // verus!
