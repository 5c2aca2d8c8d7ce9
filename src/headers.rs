//! Header maps: the header name to value lookup that templates read.

use vstd::prelude::*;
use vstd::string::*;
use vstd::utf8::*;

verus! {

broadcast use {
    vstd::utf8::group_utf8_lib,
    vstd::string::group_string_axioms,
};

/// The views of a sequence of string pairs.
pub open spec fn pairs_view(v: Seq<(String, String)>) -> Seq<(Seq<char>, Seq<char>)> {
    v.map_values(|p: (String, String)| (p.0@, p.1@))
}

/// The views of a sequence of byte-string pairs.
pub open spec fn raw_pairs_view(v: Seq<(Vec<u8>, Vec<u8>)>) -> Seq<(Seq<u8>, Seq<u8>)> {
    v.map_values(|p: (Vec<u8>, Vec<u8>)| (p.0@, p.1@))
}

/// The map that inserting the pairs of `s` in order builds: a later pair
/// replaces an earlier one with the same key.
pub open spec fn map_of(s: Seq<(Seq<char>, Seq<char>)>) -> Map<Seq<char>, Seq<char>>
    decreases s.len(),
{
    if s.len() == 0 {
        Map::empty()
    } else {
        map_of(s.drop_last()).insert(s.last().0, s.last().1)
    }
}

/// No two pairs of `s` share a key.
pub open spec fn unique_keys(s: Seq<(Seq<char>, Seq<char>)>) -> bool {
    forall|i: int, j: int| 0 <= i < j < s.len() ==> #[trigger] s[i].0 != #[trigger] s[j].0
}

proof fn lemma_map_of_index(s: Seq<(Seq<char>, Seq<char>)>, i: int)
    requires
        unique_keys(s),
        0 <= i < s.len(),
    ensures
        map_of(s).contains_key(s[i].0),
        map_of(s)[s[i].0] == s[i].1,
    decreases s.len(),
{
    if i < s.len() - 1 {
        let d = s.drop_last();
        assert(d[i] == s[i]);
        assert(s[i].0 != s[s.len() - 1].0);
        assert forall|a: int, b: int| 0 <= a < b < d.len() implies #[trigger] d[a].0 != #[trigger] d[b].0 by {
            assert(d[a] == s[a] && d[b] == s[b]);
        }
        lemma_map_of_index(d, i);
    }
}

proof fn lemma_map_of_absent(s: Seq<(Seq<char>, Seq<char>)>, k: Seq<char>)
    requires
        forall|i: int| 0 <= i < s.len() ==> #[trigger] s[i].0 != k,
    ensures
        !map_of(s).contains_key(k),
    decreases s.len(),
{
    if s.len() > 0 {
        let d = s.drop_last();
        assert forall|i: int| 0 <= i < d.len() implies #[trigger] d[i].0 != k by {
            assert(d[i] == s[i]);
        }
        lemma_map_of_absent(d, k);
    }
}

proof fn lemma_map_of_update(s: Seq<(Seq<char>, Seq<char>)>, i: int, v: Seq<char>)
    requires
        unique_keys(s),
        0 <= i < s.len(),
    ensures
        map_of(s.update(i, (s[i].0, v))) == map_of(s).insert(s[i].0, v),
    decreases s.len(),
{
    let k = s[i].0;
    let u = s.update(i, (k, v));
    let d = s.drop_last();
    if i == s.len() - 1 {
        assert(u.drop_last() =~= d);
        assert(map_of(u) =~= map_of(s).insert(k, v));
    } else {
        assert forall|a: int, b: int| 0 <= a < b < d.len() implies #[trigger] d[a].0 != #[trigger] d[b].0 by {
            assert(d[a] == s[a] && d[b] == s[b]);
        }
        assert(d[i] == s[i]);
        lemma_map_of_update(d, i, v);
        assert(u.drop_last() =~= d.update(i, (k, v)));
        assert(s[s.len() - 1].0 != k);
        assert(map_of(u) =~= map_of(s).insert(k, v));
    }
}

/// A header name to value map with unique names.
#[derive(Clone)]
pub struct HeaderMap {
    entries: Vec<(String, String)>,
}

impl View for HeaderMap {
    type V = Map<Seq<char>, Seq<char>>;

    closed spec fn view(&self) -> Map<Seq<char>, Seq<char>> {
        map_of(pairs_view(self.entries@))
    }
}

impl HeaderMap {
    /// The map is well formed: no name occurs twice.
    pub closed spec fn wf(&self) -> bool {
        unique_keys(pairs_view(self.entries@))
    }

    /// The pairs of the map, each name once, in insertion order.
    pub closed spec fn pairs(&self) -> Seq<(Seq<char>, Seq<char>)> {
        pairs_view(self.entries@)
    }

    /// An empty map.
    pub fn new() -> (r: HeaderMap)
        ensures
            r.wf(),
            r@ == Map::<Seq<char>, Seq<char>>::empty(),
    {
        HeaderMap { entries: Vec::new() }
    }

    /// The number of names in the map.
    pub fn len(&self) -> (n: usize)
        requires
            self.wf(),
        ensures
            n == self@.dom().len(),
    {
        proof {
            self.lemma_dom();
        }
        self.entries.len()
    }

    proof fn lemma_dom(&self)
        requires
            self.wf(),
        ensures
            self@.dom().len() == self.entries@.len(),
            self@.dom().finite(),
    {
        self.lemma_dom_prefix(self.entries@.len() as int);
        assert(pairs_view(self.entries@).take(self.entries@.len() as int) =~= pairs_view(self.entries@));
    }

    proof fn lemma_dom_prefix(&self, n: int)
        requires
            self.wf(),
            0 <= n <= self.entries@.len(),
        ensures
            map_of(pairs_view(self.entries@).take(n)).dom().len() == n,
            map_of(pairs_view(self.entries@).take(n)).dom().finite(),
        decreases n,
    {
        let s = pairs_view(self.entries@);
        if n > 0 {
            self.lemma_dom_prefix(n - 1);
            let t = s.take(n);
            assert(t.drop_last() =~= s.take(n - 1));
            assert forall|i: int| 0 <= i < n - 1 implies #[trigger] s.take(n - 1)[i].0 != t.last().0 by {
                assert(s[i].0 != s[n - 1].0);
            }
            lemma_map_of_absent(s.take(n - 1), t.last().0);
        }
    }

    /// A copy of the pairs of the map, each name once, in insertion order.
    pub fn to_pairs(&self) -> (r: Vec<(String, String)>)
        ensures
            pairs_view(r@) == self.pairs(),
    {
        let mut r: Vec<(String, String)> = Vec::new();
        let mut i: usize = 0;
        while i < self.entries.len()
            invariant
                0 <= i <= self.entries@.len(),
                r@.len() == i,
                pairs_view(r@) == pairs_view(self.entries@).take(i as int),
            decreases self.entries@.len() - i,
        {
            let ghost before = r@;
            let k = self.entries[i].0.clone();
            let v = self.entries[i].1.clone();
            r.push((k, v));
            proof {
                assert(r@ == before.push((k, v)));
                assert forall|j: int| 0 <= j < i implies #[trigger] pairs_view(r@)[j] == pairs_view(
                    before,
                )[j] by {
                    assert(r@[j] == before[j]);
                }
                assert(pairs_view(r@) =~= pairs_view(self.entries@).take(i + 1));
            }
            i += 1;
        }
        proof {
            assert(pairs_view(self.entries@).take(i as int) =~= pairs_view(self.entries@));
        }
        r
    }

    /// The value stored under `key`, if any.
    pub fn get(&self, key: &str) -> (r: Option<&String>)
        requires
            self.wf(),
        ensures
            match r {
                Some(v) => self@.contains_key(key@) && self@[key@] == v@,
                None => !self@.contains_key(key@),
            },
    {
        let ghost s = pairs_view(self.entries@);
        let mut i: usize = 0;
        while i < self.entries.len()
            invariant
                self.wf(),
                s == pairs_view(self.entries@),
                0 <= i <= self.entries@.len(),
                forall|j: int| 0 <= j < i ==> #[trigger] s[j].0 != key@,
            decreases self.entries@.len() - i,
        {
            if crate::text::same_text(self.entries[i].0.as_str(), key) {
                proof {
                    lemma_map_of_index(s, i as int);
                }
                return Some(&self.entries[i].1);
            }
            i += 1;
        }
        proof {
            lemma_map_of_absent(s, key@);
        }
        None
    }

    /// Stores `value` under `key`, replacing any value stored there before.
    pub fn insert(&mut self, key: String, value: String)
        requires
            old(self).wf(),
        ensures
            final(self).wf(),
            final(self)@ == old(self)@.insert(key@, value@),
    {
        let ghost s = pairs_view(self.entries@);
        let mut i: usize = 0;
        while i < self.entries.len()
            invariant
                self.wf(),
                s == pairs_view(self.entries@),
                self.entries@ == old(self).entries@,
                0 <= i <= self.entries@.len(),
                forall|j: int| 0 <= j < i ==> #[trigger] s[j].0 != key@,
            decreases self.entries@.len() - i,
        {
            if crate::text::same_text(self.entries[i].0.as_str(), key.as_str()) {
                let ghost v = value@;
                self.entries.set(i, (key, value));
                proof {
                    lemma_map_of_update(s, i as int, v);
                    assert(pairs_view(self.entries@) =~= s.update(i as int, (s[i as int].0, v)));
                }
                return;
            }
            i += 1;
        }
        proof {
            lemma_map_of_absent(s, key@);
        }
        self.entries.push((key, value));
        proof {
            let t = pairs_view(self.entries@);
            assert(t.drop_last() =~= s);
            assert forall|a: int, b: int| 0 <= a < b < t.len() implies #[trigger] t[a].0 != #[trigger] t[b].0 by {
                if b < s.len() {
                    assert(t[a] == s[a] && t[b] == s[b]);
                } else {
                    assert(t[a] == s[a]);
                }
            }
        }
    }
}

/// The header map that the raw pairs `raw` give, or `None` when a pair with
/// a UTF-8 name has a value that is not UTF-8. A pair whose name is not UTF-8
/// is skipped; a later pair replaces an earlier one with the same name.
pub open spec fn decoded_headers(raw: Seq<(Seq<u8>, Seq<u8>)>) -> Option<Map<Seq<char>, Seq<char>>>
    decreases raw.len(),
{
    if raw.len() == 0 {
        Some(Map::empty())
    } else {
        match decoded_headers(raw.drop_last()) {
            None => None,
            Some(m) => {
                let (k, v) = raw.last();
                if !valid_utf8(k) {
                    Some(m)
                } else if !valid_utf8(v) {
                    None
                } else {
                    Some(m.insert(decode_utf8(k), decode_utf8(v)))
                }
            },
        }
    }
}

proof fn lemma_decode_failure_persists(raw: Seq<(Seq<u8>, Seq<u8>)>, n: int)
    requires
        0 <= n <= raw.len(),
        decoded_headers(raw.take(n)) is None,
    ensures
        decoded_headers(raw) is None,
    decreases raw.len() - n,
{
    if n < raw.len() {
        assert(raw.take(n + 1).drop_last() =~= raw.take(n));
        lemma_decode_failure_persists(raw, n + 1);
    } else {
        assert(raw.take(n) =~= raw);
    }
}

/// A header value that is not UTF-8.
#[derive(Debug, Clone, Copy, PartialEq, Eq, Structural)]
pub enum HeaderDecodeError {
    /// A header with a UTF-8 name has a value that is not UTF-8.
    InvalidValue,
}

/// Relies on `std::str::from_utf8`: it succeeds exactly on valid UTF-8, and
/// the text it returns is encoded by those bytes.
#[verifier::external_body]
fn utf8_text(b: &[u8]) -> (r: Option<&str>)
    ensures
        r is Some <==> valid_utf8(b@),
        r is Some ==> r->0.spec_bytes() == b@,
{
    std::str::from_utf8(b).ok()
}

/// Decodes `b` as UTF-8 text.
pub(crate) fn decode_text(b: &Vec<u8>) -> (r: Option<String>)
    ensures
        r is Some <==> valid_utf8(b@),
        r is Some ==> r->0@ == decode_utf8(b@),
{
    match utf8_text(b.as_slice()) {
        Some(t) => {
            proof {
                encode_utf8_decode_utf8(t@);
            }
            Some(t.to_owned())
        },
        None => None,
    }
}

/// Builds the header map of the raw (name, value) pairs that the host hands over.
pub fn decode_headers(raw: &Vec<(Vec<u8>, Vec<u8>)>) -> (r: Result<HeaderMap, HeaderDecodeError>)
    ensures
        match r {
            Ok(m) => m.wf() && decoded_headers(raw_pairs_view(raw@)) == Some(m@),
            Err(_) => decoded_headers(raw_pairs_view(raw@)) is None,
        },
{
    let ghost s = raw_pairs_view(raw@);
    let mut map = HeaderMap::new();
    let mut i: usize = 0;
    proof {
        assert(s.take(0) =~= Seq::<(Seq<u8>, Seq<u8>)>::empty());
    }
    while i < raw.len()
        invariant
            s == raw_pairs_view(raw@),
            0 <= i <= raw@.len(),
            map.wf(),
            decoded_headers(s.take(i as int)) == Some(map@),
        decreases raw@.len() - i,
    {
        let ghost before = map@;
        proof {
            assert(s.take(i + 1).drop_last() =~= s.take(i as int));
            assert(s[i as int] == (raw@[i as int].0@, raw@[i as int].1@));
        }
        let (name, value) = &raw[i];
        match decode_text(name) {
            None => {},
            Some(k) => match decode_text(value) {
                None => {
                    proof {
                        lemma_decode_failure_persists(s, i + 1);
                    }
                    return Err(HeaderDecodeError::InvalidValue);
                },
                Some(v) => {
                    map.insert(k, v);
                },
            },
        }
        i += 1;
    }
    proof {
        assert(s.take(i as int) =~= s);
    }
    Ok(map)
}

} // verus!
