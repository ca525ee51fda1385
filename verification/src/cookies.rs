use vstd::prelude::*;
use vstd::pervasive::VecAdditionalExecFns;

use crate::cache::StringMap;
use crate::error::CookieError;

verus! {

/// The normalized key a domain string maps to: the serialized form of
/// the parsed URL, or nothing when the string is no URL at all. The
/// key is a function of the domain string alone.
pub uninterp spec fn domain_key_of(s: Seq<char>) -> Option<Seq<char>>;

/// Relies on `url::Url::parse` and `url::Url::as_str`: whether a
/// string parses as a URL, and the normalized text the parsed value
/// serializes back to, depend on the input string alone.
#[verifier::external_body]
fn normalize_domain(domain: &str) -> (r: Option<String>)
    ensures
        match r {
            Some(k) => domain_key_of(domain@) == Some(k@),
            None => domain_key_of(domain@) is None,
        },
{
    match url::Url::parse(domain) {
        Ok(u) => Some(String::from(u.as_str())),
        Err(_) => None,
    }
}

/// The cookies of one domain: name/value pairs in insertion order.
/// The store's own `set` replaces an existing name in place, so names
/// it writes stay unique; a seeded list is taken as given.
#[derive(Debug)]
pub struct CookieList {
    pub pairs: Vec<(String, String)>,
}

/// The mathematical content of a pair list: the views of its pairs,
/// in order.
pub open spec fn pairs_view(s: Seq<(String, String)>) -> Seq<(Seq<char>, Seq<char>)>
    decreases s.len(),
{
    if s.len() == 0 {
        Seq::empty()
    } else {
        pairs_view(s.drop_last()).push((s.last().0@, s.last().1@))
    }
}

/// Length and elementwise reading of `pairs_view`.
proof fn lemma_pairs_view_index(s: Seq<(String, String)>)
    ensures
        pairs_view(s).len() == s.len(),
        forall|i: int| 0 <= i < s.len() ==> pairs_view(s)[i] == (s[i].0@, s[i].1@),
    decreases s.len(),
{
    if s.len() > 0 {
        lemma_pairs_view_index(s.drop_last());
    }
}

/// `pairs_view` of an update is the update of `pairs_view`.
proof fn lemma_pairs_view_update(s: Seq<(String, String)>, i: int, e: (String, String))
    requires
        0 <= i < s.len(),
    ensures
        pairs_view(s.update(i, e)) == pairs_view(s).update(i, (e.0@, e.1@)),
    decreases s.len(),
{
    let s2 = s.update(i, e);
    lemma_pairs_view_index(s);
    lemma_pairs_view_index(s2);
    assert(pairs_view(s2) =~= pairs_view(s).update(i, (e.0@, e.1@)));
}

impl View for CookieList {
    type V = Seq<(Seq<char>, Seq<char>)>;

    open spec fn view(&self) -> Seq<(Seq<char>, Seq<char>)> {
        pairs_view(self.pairs@)
    }
}

/// First position of a cookie name in a pair list, from `i` on.
pub open spec fn pair_index_from(s: Seq<(Seq<char>, Seq<char>)>, name: Seq<char>, i: int) -> Option<
    int,
>
    decreases s.len() - i,
{
    if i < 0 || i >= s.len() {
        None
    } else if s[i].0 == name {
        Some(i)
    } else {
        pair_index_from(s, name, i + 1)
    }
}

/// A pair list with one cookie bound: replaced in place when the name
/// exists, appended otherwise.
pub open spec fn upsert_pair(
    s: Seq<(Seq<char>, Seq<char>)>,
    name: Seq<char>,
    value: Seq<char>,
) -> Seq<(Seq<char>, Seq<char>)> {
    match pair_index_from(s, name, 0) {
        Some(i) => s.update(i, (name, value)),
        None => s.push((name, value)),
    }
}

/// Whether two string slices hold the same characters.
fn str_eq(a: &str, b: &str) -> (r: bool)
    ensures
        r == (a@ == b@),
{
    let sa = a.to_owned();
    let sb = b.to_owned();
    sa == sb
}

impl CookieList {
    /// An independent copy with the same contents.
    fn duplicate(&self) -> (r: CookieList)
        ensures
            r@ == self@,
    {
        let n = self.pairs.len();
        let mut pairs: Vec<(String, String)> = Vec::new();
        let mut i: usize = 0;
        while i < n
            invariant
                0 <= i <= n,
                n == self.pairs@.len(),
                pairs_view(pairs@) == self@.take(i as int),
            decreases n - i,
        {
            let a = self.pairs[i].0.clone();
            let b = self.pairs[i].1.clone();
            let ghost prev = pairs@;
            pairs.push((a, b));
            proof {
                assert(pairs@.drop_last() =~= prev);
                lemma_pairs_view_index(self.pairs@);
                assert(pairs_view(pairs@) == pairs_view(prev).push((a@, b@)));
                assert(pairs_view(pairs@) =~= self@.take(i as int + 1));
            }
            i = i + 1;
        }
        proof {
            lemma_pairs_view_index(self.pairs@);
            assert(self@.take(n as int) =~= self@);
        }
        CookieList { pairs }
    }

    /// Binds one cookie, replacing an existing name in place.
    fn set_pair(&mut self, name: &str, value: &str)
        ensures
            final(self)@ == upsert_pair(old(self)@, name@, value@),
    {
        let n = self.pairs.len();
        let mut i: usize = 0;
        proof {
            lemma_pairs_view_index(self.pairs@);
        }
        while i < n
            invariant
                0 <= i <= n,
                n == self.pairs@.len(),
                self@.len() == n,
                self.pairs@ == old(self).pairs@,
                forall|j: int| 0 <= j < n ==> self@[j] == (self.pairs@[j].0@, self.pairs@[j].1@),
                pair_index_from(self@, name@, 0) == pair_index_from(self@, name@, i as int),
            decreases n - i,
        {
            if str_eq(self.pairs[i].0.as_str(), name) {
                proof {
                    assert(self@[i as int].0 == name@);
                    assert(pair_index_from(self@, name@, 0) == Some(i as int));
                }
                let new_name = name.to_owned();
                let new_value = value.to_owned();
                proof {
                    lemma_pairs_view_update(self.pairs@, i as int, (new_name, new_value));
                }
                self.pairs.set(i, (new_name, new_value));
                return ;
            }
            i = i + 1;
        }
        let ghost prev = self.pairs@;
        self.pairs.push((name.to_owned(), value.to_owned()));
        proof {
            assert(self.pairs@.drop_last() =~= prev);
            assert(self@ == pairs_view(prev).push((name@, value@)));
        }
    }
}

/// A cookie-store interface keyed by normalized domain URL. Entries
/// are pre-seeded externally; `set` binds a cookie only for a domain
/// that already has an entry.
pub trait CookieStore: Sized {
    /// Image of the store: normalized domain key to cookie pairs.
    spec fn jar_view(&self) -> Map<Seq<char>, Seq<(Seq<char>, Seq<char>)>>;

    /// The store's internal invariant.
    spec fn wf(&self) -> bool;

    /// All cookies of a domain, or `None` for an unknown domain;
    /// fails exactly when the domain string is no URL.
    fn get_all(&self, domain: &str) -> (r: Result<Option<CookieList>, CookieError>)
        requires
            self.wf(),
        ensures
            match r {
                Ok(found) => domain_key_of(domain@) is Some && (match found {
                    Some(c) => self.jar_view().contains_key(domain_key_of(domain@)->Some_0) && c@
                        == self.jar_view()[domain_key_of(domain@)->Some_0],
                    None => !self.jar_view().contains_key(domain_key_of(domain@)->Some_0),
                }),
                Err(e) => domain_key_of(domain@) is None && e is InvalidDomain,
            },
    ;

    /// Binds one cookie for a known domain; leaves the store exactly
    /// as it was for an unknown one (entries are seeded externally,
    /// never created here). Fails exactly when the domain string is
    /// no URL.
    fn set(&mut self, domain: &str, name: &str, value: &str) -> (r: Result<(), CookieError>)
        requires
            old(self).wf(),
        ensures
            final(self).wf(),
            match r {
                Ok(u) => domain_key_of(domain@) is Some && {
                    let k = domain_key_of(domain@)->Some_0;
                    if old(self).jar_view().contains_key(k) {
                        final(self).jar_view() == old(self).jar_view().insert(
                            k,
                            upsert_pair(old(self).jar_view()[k], name@, value@),
                        )
                    } else {
                        final(self).jar_view() == old(self).jar_view()
                    }
                },
                Err(e) => domain_key_of(domain@) is None && e is InvalidDomain && final(self
                ).jar_view() == old(self).jar_view(),
            },
    ;
}

/// In-memory cookie store keyed by normalized domain URL.
pub struct CookieJar {
    cookies: StringMap<CookieList>,
}

impl CookieJar {
    /// Creates an empty jar.
    pub fn new() -> (r: CookieJar)
        ensures
            r.wf(),
            r.jar_view() == Map::<Seq<char>, Seq<(Seq<char>, Seq<char>)>>::empty(),
    {
        CookieJar { cookies: StringMap::new() }
    }

    /// Seeds the cookies of a domain, replacing any earlier entry for
    /// it; fails exactly when the domain string is no URL.
    pub fn seed(&mut self, domain: &str, cookies: CookieList) -> (r: Result<(), CookieError>)
        requires
            old(self).wf(),
        ensures
            final(self).wf(),
            match r {
                Ok(u) => domain_key_of(domain@) is Some && final(self).jar_view() == old(
                    self,
                ).jar_view().insert(domain_key_of(domain@)->Some_0, cookies@),
                Err(e) => domain_key_of(domain@) is None && e is InvalidDomain && final(self
                ).jar_view() == old(self).jar_view(),
            },
    {
        let key = match normalize_domain(domain) {
            Some(k) => k,
            None => {
                return Err(CookieError::InvalidDomain);
            },
        };
        self.cookies.set(key, cookies);
        Ok(())
    }
}

impl CookieStore for CookieJar {
    closed spec fn jar_view(&self) -> Map<Seq<char>, Seq<(Seq<char>, Seq<char>)>> {
        self.cookies@
    }

    closed spec fn wf(&self) -> bool {
        self.cookies.wf()
    }

    fn get_all(&self, domain: &str) -> (r: Result<Option<CookieList>, CookieError>) {
        let key = match normalize_domain(domain) {
            Some(k) => k,
            None => {
                return Err(CookieError::InvalidDomain);
            },
        };
        match self.cookies.get(&key) {
            Some(list) => Ok(Some(list.duplicate())),
            None => Ok(None),
        }
    }

    fn set(&mut self, domain: &str, name: &str, value: &str) -> (r: Result<(), CookieError>) {
        let key = match normalize_domain(domain) {
            Some(k) => k,
            None => {
                return Err(CookieError::InvalidDomain);
            },
        };
        let existing = match self.cookies.get(&key) {
            Some(list) => list,
            None => {
                return Ok(());
            },
        };
        let mut updated = existing.duplicate();
        updated.set_pair(name, value);
        self.cookies.set(key, updated);
        Ok(())
    }
}

} // verus!
