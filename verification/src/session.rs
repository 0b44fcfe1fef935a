//! The session store: the cookies that tie the client to its session on the
//! modem, kept for one base address.

use crate::error::{Error, ErrorView};
use crate::outside::{jar_add_cookie_str, jar_cookies, header_text, new_jar};
use crate::text::{
    chars_of, find_sep, free_of, lemma_next_sep, next_sep, occurs_at, occurs_at_index,
};
use reqwest::cookie::Jar;
use reqwest::header::ToStrError;
use reqwest::Url;
use std::sync::Arc;
use vstd::prelude::*;
use vstd::string::*;

verus! {

/// Whether the pair of the cookie `name` starts at `at` in a `Cookie` header:
/// `name=` stands there, and it stands at the head of the header or right
/// behind `; `. A name that only ends like `name` does not count.
pub open spec fn cookie_starts_at(header: Seq<char>, name: Seq<char>, at: int) -> bool {
    &&& occurs_at(header, name.push('='), at)
    &&& (at == 0 || (at >= 2 && header[at - 2] == ';' && header[at - 1] == ' '))
}

/// The first index from `from` on at which the pair of the cookie `name`
/// starts.
pub open spec fn first_cookie_from(header: Seq<char>, name: Seq<char>, from: int) -> Option<int>
    decreases header.len() - from,
{
    if from < 0 || from >= header.len() {
        None
    } else if cookie_starts_at(header, name, from) {
        Some(from)
    } else {
        first_cookie_from(header, name, from + 1)
    }
}

/// The value of the cookie `name` in a `Cookie` header: what stands between
/// the `=` of its first pair and the next `;`, or the header's end.
pub open spec fn cookie_value(header: Seq<char>, name: Seq<char>) -> Option<Seq<char>> {
    match first_cookie_from(header, name, 0) {
        None => None,
        Some(at) => {
            let start = at + name.len() + 1;
            Some(header.subrange(start, next_sep(header, ';', start)))
        },
    }
}

/// `first_cookie_from` finds the first pair and misses none: it gives the
/// least index from `from` on at which the cookie's pair starts, and gives
/// none only where the pair starts nowhere from `from` on.
pub proof fn lemma_first_cookie(header: Seq<char>, name: Seq<char>, from: int)
    requires
        0 <= from,
    ensures
        match first_cookie_from(header, name, from) {
            Some(at) => {
                &&& from <= at < header.len()
                &&& cookie_starts_at(header, name, at)
                &&& forall|b: int| from <= b < at ==> !cookie_starts_at(header, name, b)
            },
            None => forall|b: int| from <= b ==> !cookie_starts_at(header, name, b),
        },
    decreases header.len() - from,
{
    if from < header.len() && !cookie_starts_at(header, name, from) {
        lemma_first_cookie(header, name, from + 1);
    }
}

/// The text of one pair of a `Cookie` header.
pub open spec fn pair_text(pair: (Seq<char>, Seq<char>)) -> Seq<char> {
    pair.0.push('=') + pair.1
}

/// The `Cookie` header that carries `pairs`, in order: the pairs with `; `
/// between them.
pub open spec fn header_of(pairs: Seq<(Seq<char>, Seq<char>)>) -> Seq<char>
    decreases pairs.len(),
{
    if pairs.len() == 0 {
        Seq::empty()
    } else if pairs.len() == 1 {
        pair_text(pairs[0])
    } else {
        pair_text(pairs[0]) + seq![';', ' '] + header_of(pairs.skip(1))
    }
}

/// The value of the first of `pairs` that goes by `name`.
pub open spec fn first_value(pairs: Seq<(Seq<char>, Seq<char>)>, name: Seq<char>) -> Option<
    Seq<char>,
>
    decreases pairs.len(),
{
    if pairs.len() == 0 {
        None
    } else if pairs[0].0 == name {
        Some(pairs[0].1)
    } else {
        first_value(pairs.skip(1), name)
    }
}

/// Whether a text can be the name of a cookie in a header: it holds neither
/// `=` nor `;`.
pub open spec fn is_cookie_name(name: Seq<char>) -> bool {
    free_of(name, '=') && free_of(name, ';')
}

/// Whether `pairs` can be told apart again in a header: no name holds `=` or
/// `;`, and no value holds `;`.
pub open spec fn are_cookies(pairs: Seq<(Seq<char>, Seq<char>)>) -> bool {
    forall|i: int|
        0 <= i < pairs.len() ==> is_cookie_name((#[trigger] pairs[i]).0) && free_of(pairs[i].1, ';')
}

/// A pair holds no `;`, and its first `=` stands right behind its name.
proof fn lemma_pair_text(pair: (Seq<char>, Seq<char>))
    requires
        is_cookie_name(pair.0),
        free_of(pair.1, ';'),
    ensures
        free_of(pair_text(pair), ';'),
        pair_text(pair).len() == pair.0.len() + 1 + pair.1.len(),
        pair_text(pair)[pair.0.len() as int] == '=',
        forall|i: int| 0 <= i < pair.0.len() ==> pair_text(pair)[i] == #[trigger] pair.0[i],
        forall|i: int|
            0 <= i < pair.1.len() ==> pair_text(pair)[pair.0.len() + 1 + i] == #[trigger] pair.1[i],
{
    let text = pair_text(pair);
    assert forall|i: int| 0 <= i < text.len() implies #[trigger] text[i] != ';' by {
        if i < pair.0.len() {
            assert(text[i] == pair.0[i]);
        } else if i > pair.0.len() {
            assert(text[i] == pair.1[i - pair.0.len() - 1]);
        }
    }
}

/// In a header that starts with the pair of another cookie, the pair of the
/// cookie `name` does not start within that first pair.
proof fn lemma_not_in_first_pair(
    header: Seq<char>,
    first: (Seq<char>, Seq<char>),
    name: Seq<char>,
    at: int,
)
    requires
        is_cookie_name(first.0),
        free_of(first.1, ';'),
        is_cookie_name(name),
        first.0 != name,
        header.len() >= pair_text(first).len(),
        header.subrange(0, pair_text(first).len() as int) == pair_text(first),
        header.len() > pair_text(first).len() ==> header[pair_text(first).len() as int] == ';',
        0 <= at < pair_text(first).len() + 2,
    ensures
        !cookie_starts_at(header, name, at),
{
    let text = pair_text(first);
    lemma_pair_text(first);
    assert forall|i: int| 0 <= i < text.len() implies header[i] == text[i] by {
        assert(header.subrange(0, text.len() as int)[i] == header[i]);
    }
    if cookie_starts_at(header, name, at) {
        let key = name.push('=');
        assert forall|i: int| 0 <= i < key.len() implies header[at + i] == key[i] by {
            assert(header.subrange(at, at + key.len())[i] == header[at + i]);
        }
        if at == 0 {
            // The first `=` of the header would end both names.
            if name.len() < first.0.len() {
                assert(header[name.len() as int] == key[name.len() as int]);
                assert(text[name.len() as int] == first.0[name.len() as int]);
            } else if name.len() > first.0.len() {
                assert(header[first.0.len() as int] == key[first.0.len() as int]);
                assert(key[first.0.len() as int] == name[first.0.len() as int]);
            } else {
                assert forall|i: int| 0 <= i < name.len() implies name[i] == first.0[i] by {
                    assert(header[0 + i] == key[i]);
                    assert(text[i] == first.0[i]);
                }
                assert(name =~= first.0);
            }
        } else {
            // No `;` stands two places before.
            assert(at >= 2);
            assert(header[at - 2] == ';');
            assert(at - 2 < text.len());
            assert(text[at - 2] != ';');
        }
    }
}

/// Behind a first pair and its separator, a header is searched as the rest
/// alone would be.
proof fn lemma_behind_first_pair(head: Seq<char>, rest: Seq<char>, name: Seq<char>, at: int)
    requires
        0 <= at,
    ensures
        cookie_starts_at(head + seq![';', ' '] + rest, name, head.len() + 2 + at)
            == cookie_starts_at(rest, name, at),
        0 <= at <= rest.len() ==> next_sep(head + seq![';', ' '] + rest, ';', head.len() + 2 + at)
            == head.len() + 2 + next_sep(rest, ';', at),
    decreases rest.len() - at,
{
    let header = head + seq![';', ' '] + rest;
    let off: int = head.len() as int + 2;
    let key = name.push('=');
    assert(header[off - 2] == ';' && header[off - 1] == ' ');
    assert forall|i: int| 0 <= i < rest.len() implies header[off + i] == rest[i] by {}
    if at + key.len() <= rest.len() {
        assert(header.subrange(off + at, off + at + key.len()) =~= rest.subrange(
            at,
            at + key.len(),
        ));
    }
    if at >= 2 && at <= rest.len() {
        assert(header[off + (at - 2)] == rest[at - 2]);
        assert(header[off + (at - 1)] == rest[at - 1]);
    }
    if 0 <= at < rest.len() {
        assert(header[off + at] == rest[at]);
        if rest[at] != ';' {
            lemma_behind_first_pair(head, rest, name, at + 1);
        }
    }
}

/// The lookup in a header finds what the pairs say: the value of the first
/// pair that goes by the name, and nothing where no pair does. A name that
/// only starts or ends like the one looked for is not mistaken for it.
pub proof fn lemma_lookup_finds_first_pair(pairs: Seq<(Seq<char>, Seq<char>)>, name: Seq<char>)
    requires
        are_cookies(pairs),
        is_cookie_name(name),
    ensures
        cookie_value(header_of(pairs), name) == first_value(pairs, name),
    decreases pairs.len(),
{
    let header = header_of(pairs);
    lemma_first_cookie(header, name, 0);
    if pairs.len() == 0 {
    } else {
        let first = pairs[0];
        let text = pair_text(first);
        let later = pairs.skip(1);
        let rest = header_of(later);
        lemma_pair_text(first);
        assert(are_cookies(later)) by {
            assert forall|i: int| 0 <= i < later.len() implies is_cookie_name(
                (#[trigger] later[i]).0,
            ) && free_of(later[i].1, ';') by {
                assert(later[i] == pairs[i + 1]);
            }
        }
        if pairs.len() == 1 {
            assert(header == text);
        } else {
            assert(header == text + seq![';', ' '] + rest);
            assert(header[text.len() as int] == ';');
        }
        assert(header.subrange(0, text.len() as int) =~= text);
        if first.0 == name {
            let key = name.push('=');
            assert(header.subrange(0, key.len() as int) =~= key);
            assert(cookie_starts_at(header, name, 0));
            let start: int = name.len() as int + 1;
            lemma_next_sep(header, ';', start);
            let end = next_sep(header, ';', start);
            assert(end == text.len()) by {
                if end < text.len() {
                    assert(header[end] == text[end]);
                }
            }
            assert(header.subrange(start, end) =~= first.1);
        } else {
            assert forall|at: int| 0 <= at < text.len() + 2 implies !cookie_starts_at(
                header,
                name,
                at,
            ) by {
                lemma_not_in_first_pair(header, first, name, at);
            }
            if pairs.len() == 1 {
                assert(first_value(later, name) is None);
                assert(first_cookie_from(header, name, 0) is None);
            } else {
                let off: int = text.len() as int + 2;
                lemma_lookup_finds_first_pair(later, name);
                lemma_first_cookie(rest, name, 0);
                assert forall|at: int| 0 <= at implies cookie_starts_at(header, name, off + at)
                    == cookie_starts_at(rest, name, at) by {
                    lemma_behind_first_pair(text, rest, name, at);
                }
                match first_cookie_from(rest, name, 0) {
                    None => {
                        assert forall|b: int| 0 <= b implies !cookie_starts_at(header, name, b) by {
                            if b >= off {
                                assert(cookie_starts_at(header, name, off + (b - off))
                                    == cookie_starts_at(rest, name, b - off));
                            }
                        }
                        assert(first_cookie_from(header, name, 0) is None);
                    },
                    Some(found) => {
                        assert(cookie_starts_at(header, name, off + found));
                        assert forall|b: int| 0 <= b < off + found implies !cookie_starts_at(
                            header,
                            name,
                            b,
                        ) by {
                            if b >= off {
                                assert(cookie_starts_at(header, name, off + (b - off))
                                    == cookie_starts_at(rest, name, b - off));
                            }
                        }
                        assert(first_cookie_from(header, name, 0) == Some(off + found));
                        let start: int = found + name.len() + 1;
                        lemma_behind_first_pair(text, rest, name, start);
                        lemma_next_sep(rest, ';', start);
                        let end = next_sep(rest, ';', start);
                        assert(header.subrange(off + start, off + end) =~= rest.subrange(
                            start,
                            end,
                        ));
                    },
                }
            }
        }
    }
}

/// Looks the cookie `name` up in a `Cookie` header, a list of `name=value`
/// pairs with `; ` between them.
pub fn find_cookie(header: &str, name: &str) -> (r: Option<String>)
    ensures
        match r {
            Some(value) => cookie_value(header@, name@) == Some(value@),
            None => cookie_value(header@, name@) is None,
        },
{
    let h = chars_of(header);
    let mut key = chars_of(name);
    key.push('=');
    let mut at: usize = 0;
    while at < h.len()
        invariant
            h@ == header@,
            key@ == name@.push('='),
            at <= h.len(),
            first_cookie_from(header@, name@, 0) == first_cookie_from(header@, name@, at as int),
        decreases h.len() - at,
    {
        let at_head = at == 0 || (at >= 2 && h[at - 2] == ';' && h[at - 1] == ' ');
        if at_head && occurs_at_index(&h, &key, at) {
            let start: usize = at + key.len();
            let end: usize = find_sep(&h, ';', start);
            let value = header.substring_char(start, end);
            return Some(String::from_str(value));
        }
        at += 1;
    }
    None
}

/// What a lookup of the cookie `name` makes of the header that the jar gave:
/// no header means no cookie, a header that is no text is an error, and a
/// text is searched.
pub open spec fn lookup(header: Option<Result<Seq<char>, ToStrError>>, name: Seq<char>) -> Result<
    Option<Seq<char>>,
    ErrorView,
> {
    match header {
        None => Ok(None),
        Some(Err(e)) => Err(ErrorView::InvalidHeaderValue(e)),
        Some(Ok(text)) => Ok(cookie_value(text, name)),
    }
}

/// The outcome of a lookup, with its texts as sequences of characters.
pub open spec fn lookup_view(r: Result<Option<String>, Error>) -> Result<
    Option<Seq<char>>,
    ErrorView,
> {
    match r {
        Ok(Some(value)) => Ok(Some(value@)),
        Ok(None) => Ok(None),
        Err(e) => Err(e@),
    }
}

/// The header that the jar gave, with its text as a sequence of characters.
pub open spec fn header_view(header: Option<Result<String, ToStrError>>) -> Option<
    Result<Seq<char>, ToStrError>,
> {
    match header {
        None => None,
        Some(Ok(text)) => Some(Ok(text@)),
        Some(Err(e)) => Some(Err(e)),
    }
}

/// Looks the cookie `name` up in the header that the jar gave for the base
/// address.
pub fn cookie_in(header: Option<Result<String, ToStrError>>, name: &str) -> (r: Result<
    Option<String>,
    Error,
>)
    ensures
        lookup_view(r) == lookup(header_view(header), name@),
{
    match header {
        None => Ok(None),
        Some(Err(e)) => Err(Error::InvalidHeaderValue(e)),
        Some(Ok(text)) => Ok(find_cookie(text.as_str(), name)),
    }
}

/// The text that sets the cookie `name` to `value`.
pub fn cookie_pair(name: &str, value: &str) -> (pair: String)
    ensures
        pair@ == pair_text((name@, value@)),
{
    proof {
        reveal_strlit("=");
    }
    let mut pair = String::from_str(name);
    pair.append("=");
    pair.append(value);
    assert(pair@ =~= pair_text((name@, value@)));
    pair
}

/// The cookies of one session, kept in a jar that the HTTP client shares: the
/// client files what the modem sets and sends what the jar holds.
///
/// What the jar holds at any time is the jar's matter. What the store itself
/// has put there is on record, in order, as `stored`.
pub struct SessionStore {
    jar: Arc<Jar>,
    scope: Url,
    stored: Ghost<Seq<(Seq<char>, Seq<char>)>>,
}

impl SessionStore {
    /// An empty store for the base address `scope`.
    pub fn new(scope: Url) -> (store: SessionStore)
        ensures
            store.scope() == scope,
            store.stored() == Seq::<(Seq<char>, Seq<char>)>::empty(),
    {
        SessionStore { jar: Arc::new(new_jar()), scope, stored: Ghost(Seq::empty()) }
    }

    /// The base address that the cookies are kept for.
    pub closed spec fn scope(&self) -> Url {
        self.scope
    }

    /// The cookies that were set through this store, names and values, from
    /// the first to the latest.
    pub closed spec fn stored(&self) -> Seq<(Seq<char>, Seq<char>)> {
        self.stored@
    }

    /// The jar, for the HTTP client to share.
    pub fn jar(&self) -> (jar: Arc<Jar>)
        ensures
            jar == self.jar_spec(),
    {
        self.jar.clone()
    }

    /// The jar that the store keeps its cookies in.
    pub closed spec fn jar_spec(&self) -> Arc<Jar> {
        self.jar
    }

    /// Sets the cookie `name` to `value`, in place of any earlier value: the
    /// pair is handed to the jar, and goes on record.
    pub fn set(&mut self, name: &str, value: &str)
        ensures
            final(self).stored() == old(self).stored().push((name@, value@)),
            final(self).scope() == old(self).scope(),
            final(self).jar_spec() == old(self).jar_spec(),
    {
        let pair = cookie_pair(name, value);
        jar_add_cookie_str(&self.jar, pair.as_str(), &self.scope);
        self.stored = Ghost(self.stored@.push((name@, value@)));
    }

    /// The value of the cookie `name`, if the store holds one now. The jar
    /// decides which header it gives; the result is what `lookup` makes of
    /// that header.
    pub fn get(&self, name: &str) -> (r: Result<Option<String>, Error>)
        ensures
            exists|header: Option<Result<Seq<char>, ToStrError>>|
                lookup_view(r) == #[trigger] lookup(header, name@),
    {
        let header = match jar_cookies(&self.jar, &self.scope) {
            None => None,
            Some(value) => Some(header_text(&value)),
        };
        let r = cookie_in(header, name);
        assert(lookup_view(r) == lookup(header_view(header), name@));
        r
    }
}

} // verus!
