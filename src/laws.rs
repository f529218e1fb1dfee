use vstd::prelude::*;
use crate::status::{
    status_of_read, shown_text, AuthStatusView, AUTH_COOKIE, DEMO_TOKEN,
};
use crate::cookie::{
    cookie_value, entry_value, is_white_space, lookup_from, pieces, set_string, trim, trim_end,
    trim_start,
};

verus! {

/// A cookie name that the store accepts: not empty, with no white space, `;`
/// or `=`.
pub open spec fn valid_name(n: Seq<char>) -> bool {
    &&& n.len() > 0
    &&& forall|i: int| 0 <= i < n.len() ==> !is_white_space(#[trigger] n[i]) && n[i] != ';' && n[i] != '='
}

/// A cookie value that reads back as written: no `;`, and no white space at
/// its end.
pub open spec fn valid_value(v: Seq<char>) -> bool {
    &&& forall|i: int| 0 <= i < v.len() ==> #[trigger] v[i] != ';'
    &&& v.len() > 0 ==> !is_white_space(v.last())
}

/// One entry of a cookie string: `name=value`.
pub open spec fn entry_text(name: Seq<char>, value: Seq<char>) -> Seq<char> {
    name + seq!['='] + value
}

/// The cookie string that a document gives for a store holding these
/// `(name, value)` entries, in this order: `a=1; b=2`.
pub open spec fn jar_string(es: Seq<(Seq<char>, Seq<char>)>) -> Seq<char>
    decreases es.len(),
{
    if es.len() == 0 {
        Seq::empty()
    } else if es.len() == 1 {
        entry_text(es[0].0, es[0].1)
    } else {
        jar_string(es.drop_last()) + seq![';', ' '] + entry_text(es.last().0, es.last().1)
    }
}

/// A store whose entries have valid names and values, each name once.
pub open spec fn valid_jar(es: Seq<(Seq<char>, Seq<char>)>) -> bool {
    &&& forall|i: int| 0 <= i < es.len() ==> valid_name(#[trigger] es[i].0) && valid_value(es[i].1)
    &&& forall|i: int, j: int| 0 <= i < j < es.len() ==> #[trigger] es[i].0 != #[trigger] es[j].0
}

proof fn lemma_pieces_len(s: Seq<char>)
    ensures
        pieces(s).len() >= 1,
    decreases s.len(),
{
    if s.len() > 0 {
        lemma_pieces_len(s.drop_last());
    }
}

proof fn lemma_pieces_without_semicolon(b: Seq<char>)
    requires
        forall|i: int| 0 <= i < b.len() ==> #[trigger] b[i] != ';',
    ensures
        pieces(b) == seq![b],
    decreases b.len(),
{
    if b.len() > 0 {
        lemma_pieces_without_semicolon(b.drop_last());
        assert(b.drop_last().push(b.last()) =~= b);
        assert(pieces(b) =~= seq![b]);
    } else {
        assert(b =~= Seq::<char>::empty());
    }
}

proof fn lemma_pieces_concat(a: Seq<char>, b: Seq<char>)
    ensures
        pieces(a + seq![';'] + b) == pieces(a) + pieces(b),
    decreases b.len(),
{
    let s = a + seq![';'] + b;
    if b.len() == 0 {
        assert(s.drop_last() =~= a);
        assert(pieces(b) =~= seq![Seq::<char>::empty()]);
        assert(pieces(s) =~= pieces(a) + pieces(b));
    } else {
        assert(s.drop_last() =~= a + seq![';'] + b.drop_last());
        lemma_pieces_concat(a, b.drop_last());
        lemma_pieces_len(b.drop_last());
        assert(pieces(s) =~= pieces(a) + pieces(b));
    }
}

proof fn lemma_entry_without_semicolon(n: Seq<char>, v: Seq<char>)
    requires
        valid_name(n),
        valid_value(v),
    ensures
        forall|i: int| 0 <= i < entry_text(n, v).len() ==> #[trigger] entry_text(n, v)[i] != ';',
        forall|i: int|
            0 <= i < (seq![' '] + entry_text(n, v)).len() ==> #[trigger] (seq![' '] + entry_text(
                n,
                v,
            ))[i] != ';',
{
    let e = entry_text(n, v);
    assert forall|i: int| 0 <= i < e.len() implies #[trigger] e[i] != ';' by {
        if i < n.len() {
            assert(e[i] == n[i]);
        } else if i > n.len() {
            assert(e[i] == v[i - n.len() - 1]);
        }
    }
    let f = seq![' '] + e;
    assert forall|i: int| 0 <= i < f.len() implies #[trigger] f[i] != ';' by {
        if i > 0 {
            assert(f[i] == e[i - 1]);
        }
    }
}

/// The pieces of a store's cookie string are its entries, each after the
/// first led by a space.
proof fn lemma_jar_pieces(es: Seq<(Seq<char>, Seq<char>)>)
    requires
        valid_jar(es),
        es.len() > 0,
    ensures
        pieces(jar_string(es)).len() == es.len(),
        pieces(jar_string(es))[0] == entry_text(es[0].0, es[0].1),
        forall|i: int|
            0 < i < es.len() ==> #[trigger] pieces(jar_string(es))[i] == seq![' '] + entry_text(
                es[i].0,
                es[i].1,
            ),
    decreases es.len(),
{
    if es.len() == 1 {
        lemma_entry_without_semicolon(es[0].0, es[0].1);
        lemma_pieces_without_semicolon(entry_text(es[0].0, es[0].1));
    } else {
        let front = es.drop_last();
        assert forall|i: int| 0 <= i < front.len() implies valid_name(#[trigger] front[i].0)
            && valid_value(front[i].1) by {
            assert(front[i] == es[i]);
        }
        assert forall|i: int, j: int| 0 <= i < j < front.len() implies #[trigger] front[i].0
            != #[trigger] front[j].0 by {
            assert(front[i] == es[i] && front[j] == es[j]);
        }
        lemma_jar_pieces(front);
        let last = es.last();
        assert(valid_name(es[es.len() - 1].0));
        lemma_entry_without_semicolon(last.0, last.1);
        let tail = seq![' '] + entry_text(last.0, last.1);
        lemma_pieces_without_semicolon(tail);
        assert(jar_string(es) =~= jar_string(front) + seq![';'] + tail);
        lemma_pieces_concat(jar_string(front), tail);
        assert forall|i: int| 0 < i < es.len() implies #[trigger] pieces(jar_string(es))[i]
            == seq![' '] + entry_text(es[i].0, es[i].1) by {
            if i < es.len() - 1 {
                assert(es[i] == front[i]);
            }
        }
    }
}

/// Trimming leaves an entry as it is, and drops the space that leads it.
proof fn lemma_trim_entry(n: Seq<char>, v: Seq<char>)
    requires
        valid_name(n),
        valid_value(v),
    ensures
        trim(entry_text(n, v)) == entry_text(n, v),
        trim(seq![' '] + entry_text(n, v)) == entry_text(n, v),
{
    let e = entry_text(n, v);
    assert(e[0] == n[0]);
    assert(trim_start(e) == e);
    let f = seq![' '] + e;
    assert(is_white_space(' '));
    assert(f.drop_first() =~= e);
    assert(trim_start(f) == trim_start(e));
    if v.len() > 0 {
        assert(e.last() == v.last());
    } else {
        assert(e.last() == '=');
    }
    assert(trim_end(e) == e);
}

/// What an entry gives for a valid name: its value when the names agree,
/// nothing otherwise.
proof fn lemma_entry_value(n: Seq<char>, v: Seq<char>, name: Seq<char>)
    requires
        valid_name(n),
        valid_value(v),
        valid_name(name),
    ensures
        entry_value(entry_text(n, v), name) == (if n == name {
            Some(v)
        } else {
            None::<Seq<char>>
        }),
        entry_value(seq![' '] + entry_text(n, v), name) == entry_value(entry_text(n, v), name),
{
    lemma_trim_entry(n, v);
    let e = entry_text(n, v);
    let k = name.len();
    if n == name {
        assert(e.take(k as int) =~= name);
        assert(e.skip(k + 1 as int) =~= v);
    } else if e.len() > k && e.take(k as int) == name && e[k as int] == '=' {
        if k < n.len() {
            assert(e[k as int] == n[k as int]);
        } else if k == n.len() {
            assert(n =~= e.take(k as int));
        } else {
            assert(e[n.len() as int] == '=');
            assert(e.take(k as int)[n.len() as int] == name[n.len() as int]);
        }
    }
}

/// Looking a name up from piece `k` on in a store's cookie string.
proof fn lemma_lookup_jar(es: Seq<(Seq<char>, Seq<char>)>, name: Seq<char>, k: int)
    requires
        valid_jar(es),
        es.len() > 0,
        valid_name(name),
        0 <= k <= es.len(),
    ensures
        (forall|i: int| k <= i < es.len() ==> #[trigger] es[i].0 != name) ==> lookup_from(
            pieces(jar_string(es)),
            name,
            k,
        ) is None,
        forall|i: int|
            k <= i < es.len() && #[trigger] es[i].0 == name ==> lookup_from(
                pieces(jar_string(es)),
                name,
                k,
            ) == Some(es[i].1),
    decreases es.len() - k,
{
    lemma_jar_pieces(es);
    let ps = pieces(jar_string(es));
    if k < es.len() {
        lemma_lookup_jar(es, name, k + 1);
        lemma_entry_value(es[k].0, es[k].1, name);
        if k > 0 {
            assert(ps[k] == seq![' '] + entry_text(es[k].0, es[k].1));
        }
        assert forall|i: int| k <= i < es.len() && #[trigger] es[i].0 == name implies lookup_from(
            ps,
            name,
            k,
        ) == Some(es[i].1) by {
            if i > k {
                assert(es[k].0 != es[i].0);
            }
        }
    }
}

/// A name that no entry of the store has is not found in its cookie string:
/// the lookup gives nothing, and no error.
pub proof fn law_absent_name_not_found(es: Seq<(Seq<char>, Seq<char>)>, name: Seq<char>)
    requires
        valid_jar(es),
        valid_name(name),
        forall|i: int| 0 <= i < es.len() ==> #[trigger] es[i].0 != name,
    ensures
        cookie_value(jar_string(es), name) is None,
{
    if es.len() == 0 {
        let s = jar_string(es);
        assert(pieces(s) == seq![Seq::<char>::empty()]);
        assert(trim_start(Seq::<char>::empty()) == Seq::<char>::empty());
        assert(lookup_from(pieces(s), name, 1) is None);
    } else {
        lemma_lookup_jar(es, name, 0);
    }
}

/// Each entry of a store is found in its cookie string, whatever the order of
/// the entries.
pub proof fn law_entry_found_in_any_order(es: Seq<(Seq<char>, Seq<char>)>, i: int)
    requires
        valid_jar(es),
        0 <= i < es.len(),
    ensures
        cookie_value(jar_string(es), es[i].0) == Some(es[i].1),
{
    lemma_lookup_jar(es, es[i].0, 0);
}

/// The string that sets a cookie reads back, as a cookie string, the value it
/// set.
pub proof fn law_set_then_get(name: Seq<char>, value: Seq<char>, expires: Seq<char>)
    requires
        valid_name(name),
        valid_value(value),
    ensures
        cookie_value(set_string(name, value, expires), name) == Some(value),
{
    let e = entry_text(name, value);
    let rest = seq![' ', 'e', 'x', 'p', 'i', 'r', 'e', 's', '='] + expires + seq![';', ' ', 'p', 'a', 't', 'h', '=', '/'];
    assert(set_string(name, value, expires) =~= e + seq![';'] + rest);
    lemma_pieces_concat(e, rest);
    lemma_entry_without_semicolon(name, value);
    lemma_pieces_without_semicolon(e);
    lemma_entry_value(name, value, name);
    assert(pieces(set_string(name, value, expires))[0] == e);
}

/// The store after a cookie is set: the entry of that name takes the new
/// value, or a new entry is added at the end.
pub open spec fn jar_set(es: Seq<(Seq<char>, Seq<char>)>, name: Seq<char>, value: Seq<char>) -> Seq<
    (Seq<char>, Seq<char>),
> {
    if exists|i: int| 0 <= i < es.len() && #[trigger] es[i].0 == name {
        es.map_values(|e: (Seq<char>, Seq<char>)| if e.0 == name { (name, value) } else { e })
    } else {
        es.push((name, value))
    }
}

proof fn lemma_jar_set(es: Seq<(Seq<char>, Seq<char>)>, name: Seq<char>, value: Seq<char>)
    requires
        valid_jar(es),
        valid_name(name),
        valid_value(value),
    ensures
        valid_jar(jar_set(es, name, value)),
        exists|i: int|
            0 <= i < jar_set(es, name, value).len() && #[trigger] jar_set(es, name, value)[i] == (
            name,
            value,
        ),
        forall|i: int|
            0 <= i < jar_set(es, name, value).len() && #[trigger] jar_set(es, name, value)[i].0
                == name ==> jar_set(es, name, value)[i].1 == value,
{
    let r = jar_set(es, name, value);
    if exists|i: int| 0 <= i < es.len() && #[trigger] es[i].0 == name {
        let i = choose|i: int| 0 <= i < es.len() && #[trigger] es[i].0 == name;
        assert(r[i] == (name, value));
        assert forall|a: int, b: int| 0 <= a < b < r.len() implies #[trigger] r[a].0
            != #[trigger] r[b].0 by {
            assert(es[a].0 != es[b].0);
        }
    } else {
        assert(r[es.len() as int] == (name, value));
        assert forall|a: int, b: int| 0 <= a < b < r.len() implies #[trigger] r[a].0
            != #[trigger] r[b].0 by {
            if b < es.len() {
                assert(es[a].0 != es[b].0);
            } else {
                assert(r[a] == es[a]);
            }
        }
    }
}

proof fn lemma_auth_cookie_valid()
    ensures
        valid_name(AUTH_COOKIE@),
        valid_value(DEMO_TOKEN@),
{
    reveal_strlit("auth_token");
    reveal_strlit("example_id_token_from_cognito");
    let n = AUTH_COOKIE@;
    let v = DEMO_TOKEN@;
    assert forall|i: int| 0 <= i < n.len() implies !is_white_space(#[trigger] n[i]) && n[i] != ';'
        && n[i] != '=' by {
        assert('a' <= n[i] <= 'z' || n[i] == '_');
    }
    assert forall|i: int| 0 <= i < v.len() implies #[trigger] v[i] != ';' by {
        assert('a' <= v[i] <= 'z' || v[i] == '_');
    }
}

/// Clicking the login button twice writes the demo token both times, whatever
/// the expiry dates: the second write leaves the store as the first left it,
/// and the page then shows the user as logged in with that token.
pub proof fn law_login_twice(es: Seq<(Seq<char>, Seq<char>)>, first: Seq<char>, second: Seq<char>)
    requires
        valid_jar(es),
    ensures
        cookie_value(set_string(AUTH_COOKIE@, DEMO_TOKEN@, first), AUTH_COOKIE@) == Some(
            DEMO_TOKEN@,
        ),
        cookie_value(set_string(AUTH_COOKIE@, DEMO_TOKEN@, second), AUTH_COOKIE@) == Some(
            DEMO_TOKEN@,
        ),
        jar_set(jar_set(es, AUTH_COOKIE@, DEMO_TOKEN@), AUTH_COOKIE@, DEMO_TOKEN@) == jar_set(
            es,
            AUTH_COOKIE@,
            DEMO_TOKEN@,
        ),
        status_of_read(
            Ok(cookie_value(jar_string(jar_set(es, AUTH_COOKIE@, DEMO_TOKEN@)), AUTH_COOKIE@)),
        ) == AuthStatusView::LoggedIn(DEMO_TOKEN@),
        shown_text(Some(AuthStatusView::LoggedIn(DEMO_TOKEN@))) == "Logged in with token: "@
            + DEMO_TOKEN@,
{
    let n = AUTH_COOKIE@;
    let v = DEMO_TOKEN@;
    lemma_auth_cookie_valid();
    law_set_then_get(n, v, first);
    law_set_then_get(n, v, second);
    lemma_jar_set(es, n, v);
    let once = jar_set(es, n, v);
    let i = choose|i: int| 0 <= i < once.len() && #[trigger] once[i] == (n, v);
    assert(once[i].0 == n);
    let twice = jar_set(once, n, v);
    assert(twice =~= once);
    law_entry_found_in_any_order(once, i);
}

/// Once the store holds no token cookie, looking the status up again gives
/// "not logged in".
pub proof fn law_cleared_not_logged_in(es: Seq<(Seq<char>, Seq<char>)>)
    requires
        valid_jar(es),
        forall|i: int| 0 <= i < es.len() ==> #[trigger] es[i].0 != AUTH_COOKIE@,
    ensures
        status_of_read(Ok(cookie_value(jar_string(es), AUTH_COOKIE@))) == AuthStatusView::NotLoggedIn,
{
    lemma_auth_cookie_valid();
    law_absent_name_not_found(es, AUTH_COOKIE@);
}

} // verus!
