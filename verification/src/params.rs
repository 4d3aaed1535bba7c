//! Query parameters of a lookup request, and the cache keys derived from
//! them.
//!
//! Parameters are kept sorted by name, so they are serialized in the same
//! order whatever order the options were applied in.

use vstd::prelude::*;
use vstd::string::*;
use vstd::utf8::encode_utf8;

use crate::keyed::{distinct_keys, has_key, key_index, lookup};
use crate::text::chars_of;

verus! {

/// Lexicographic order of character sequences by code point, the order in
/// which `String`s compare.
pub open spec fn key_lt(a: Seq<char>, b: Seq<char>) -> bool
    decreases a.len(),
{
    if a.len() == 0 {
        b.len() > 0
    } else if b.len() == 0 {
        false
    } else if a[0] < b[0] {
        true
    } else if a[0] == b[0] {
        key_lt(a.drop_first(), b.drop_first())
    } else {
        false
    }
}

/// No sequence precedes itself.
pub proof fn lemma_key_lt_irreflexive(a: Seq<char>)
    ensures
        !key_lt(a, a),
    decreases a.len(),
{
    if a.len() > 0 {
        lemma_key_lt_irreflexive(a.drop_first());
    }
}

/// The order is transitive.
pub proof fn lemma_key_lt_transitive(a: Seq<char>, b: Seq<char>, c: Seq<char>)
    requires
        key_lt(a, b),
        key_lt(b, c),
    ensures
        key_lt(a, c),
    decreases a.len(),
{
    if a.len() > 0 && b.len() > 0 && c.len() > 0 {
        if a[0] == b[0] && b[0] == c[0] {
            lemma_key_lt_transitive(a.drop_first(), b.drop_first(), c.drop_first());
        }
    }
}

/// Two different sequences are ordered one way or the other.
pub proof fn lemma_key_lt_total(a: Seq<char>, b: Seq<char>)
    requires
        a != b,
    ensures
        key_lt(a, b) || key_lt(b, a),
    decreases a.len(),
{
    if a.len() > 0 && b.len() > 0 && a[0] == b[0] {
        if a.drop_first() == b.drop_first() {
            assert(a =~= seq![a[0]] + a.drop_first());
            assert(b =~= seq![b[0]] + b.drop_first());
        }
        lemma_key_lt_total(a.drop_first(), b.drop_first());
    } else if a.len() == 0 && b.len() == 0 {
        assert(a =~= b);
    }
}

/// Whether `a` precedes `b` in code-point lexicographic order.
fn chars_less(a: &Vec<char>, b: &Vec<char>) -> (r: bool)
    ensures
        r == key_lt(a@, b@),
{
    let mut i: usize = 0;
    assert(a@.skip(0) =~= a@ && b@.skip(0) =~= b@);
    while i < a.len() && i < b.len() && a[i] == b[i]
        invariant
            i <= a.len(),
            i <= b.len(),
            key_lt(a@, b@) == key_lt(a@.skip(i as int), b@.skip(i as int)),
        decreases a.len() - i,
    {
        assert(a@.skip(i as int).drop_first() =~= a@.skip(i + 1));
        assert(b@.skip(i as int).drop_first() =~= b@.skip(i + 1));
        i = i + 1;
    }
    if i == a.len() {
        i < b.len()
    } else if i == b.len() {
        false
    } else {
        a[i] < b[i]
    }
}

/// Names are strictly increasing.
pub open spec fn sorted_keys(s: Seq<(Seq<char>, Seq<char>)>) -> bool {
    forall|i: int, j: int| 0 <= i < j < s.len() ==> key_lt(#[trigger] s[i].0, #[trigger] s[j].0)
}

/// The name-to-value map of a sequence of pairs with distinct names.
pub open spec fn pairs_map(s: Seq<(Seq<char>, Seq<char>)>) -> Map<Seq<char>, Seq<char>> {
    Map::new(|k: Seq<char>| has_key(s, k), |k: Seq<char>| lookup(s, k)->0)
}

proof fn lemma_sorted_distinct(s: Seq<(Seq<char>, Seq<char>)>)
    requires
        sorted_keys(s),
    ensures
        distinct_keys(s),
{
    assert forall|i: int, j: int|
        0 <= i < s.len() && 0 <= j < s.len() && i != j implies #[trigger] s[i].0
        != #[trigger] s[j].0 by {
        if i < j {
            assert(key_lt(s[i].0, s[j].0));
            if s[i].0 == s[j].0 {
                lemma_key_lt_irreflexive(s[i].0);
            }
        } else {
            assert(key_lt(s[j].0, s[i].0));
            if s[i].0 == s[j].0 {
                lemma_key_lt_irreflexive(s[i].0);
            }
        }
    }
}

/// Two name-sorted pair sequences with the same name-to-value map are the
/// same sequence: the sorted form of a set of parameters is unique.
pub proof fn lemma_sorted_pairs_unique(a: Seq<(Seq<char>, Seq<char>)>, b: Seq<(Seq<char>, Seq<char>)>)
    requires
        sorted_keys(a),
        sorted_keys(b),
        pairs_map(a) == pairs_map(b),
    ensures
        a == b,
    decreases a.len(),
{
    lemma_sorted_distinct(a);
    lemma_sorted_distinct(b);
    if a.len() == 0 {
        if b.len() > 0 {
            assert(has_key(b, b[0].0));
            assert(pairs_map(b).dom().contains(b[0].0));
        }
        assert(a =~= b);
    } else if b.len() == 0 {
        assert(has_key(a, a[0].0));
        assert(pairs_map(a).dom().contains(a[0].0));
    } else {
        let ka = a[0].0;
        let kb = b[0].0;
        assert(has_key(a, ka));
        assert(has_key(b, kb));
        assert(pairs_map(a).dom().contains(kb));
        assert(pairs_map(b).dom().contains(ka));
        let ia = key_index(a, kb);
        let ib = key_index(b, ka);
        if ka != kb {
            // `kb` stands later in `a`, `ka` later in `b`: each precedes the other.
            assert(ia != 0);
            assert(key_lt(a[0].0, a[ia].0));
            assert(ib != 0);
            assert(key_lt(b[0].0, b[ib].0));
            lemma_key_lt_transitive(ka, kb, ka);
            lemma_key_lt_irreflexive(ka);
        }
        assert(ka == kb);
        crate::keyed::lemma_key_index(a, 0);
        crate::keyed::lemma_key_index(b, 0);
        assert(pairs_map(a)[ka] == a[0].1);
        assert(pairs_map(b)[ka] == b[0].1);
        let a1 = a.drop_first();
        let b1 = b.drop_first();
        assert(sorted_keys(a1)) by {
            assert forall|i: int, j: int| 0 <= i < j < a1.len() implies key_lt(
                #[trigger] a1[i].0,
                #[trigger] a1[j].0,
            ) by {
                assert(a1[i] == a[i + 1] && a1[j] == a[j + 1]);
            }
        }
        assert(sorted_keys(b1)) by {
            assert forall|i: int, j: int| 0 <= i < j < b1.len() implies key_lt(
                #[trigger] b1[i].0,
                #[trigger] b1[j].0,
            ) by {
                assert(b1[i] == b[i + 1] && b1[j] == b[j + 1]);
            }
        }
        assert(a1 =~= a.remove(0));
        assert(b1 =~= b.remove(0));
        crate::keyed::lemma_remove_keys(a, 0);
        crate::keyed::lemma_remove_keys(b, 0);
        assert(pairs_map(a1) =~= pairs_map(b1)) by {
            assert forall|k: Seq<char>| pairs_map(a1).dom().contains(k) <==> pairs_map(
                b1,
            ).dom().contains(k) by {
                assert(pairs_map(a).dom().contains(k) == pairs_map(b).dom().contains(k));
                assert(has_key(a1, k) == (has_key(a, k) && k != ka));
                assert(has_key(b1, k) == (has_key(b, k) && k != ka));
                assert(pairs_map(a1).dom().contains(k) == has_key(a1, k));
                assert(pairs_map(b1).dom().contains(k) == has_key(b1, k));
                assert(pairs_map(a).dom().contains(k) == has_key(a, k));
                assert(pairs_map(b).dom().contains(k) == has_key(b, k));
            }
            assert forall|k: Seq<char>| pairs_map(a1).dom().contains(k) implies pairs_map(a1)[k]
                == pairs_map(b1)[k] by {
                assert(pairs_map(a)[k] == pairs_map(b)[k]);
                assert(lookup(a1, k) == lookup(a, k));
                assert(lookup(b1, k) == lookup(b, k));
            }
        }
        lemma_sorted_pairs_unique(a1, b1);
        assert(a =~= seq![a[0]] + a1);
        assert(b =~= seq![b[0]] + b1);
    }
}

/// The view of a vector of name/value strings as character sequences.
pub open spec fn pairs_view(v: Seq<(String, String)>) -> Seq<(Seq<char>, Seq<char>)> {
    v.map_values(|p: (String, String)| (p.0@, p.1@))
}

/// The query parameters of a request: names mapped to values, kept sorted
/// by name.
#[derive(Debug, Clone, PartialEq, Eq, Default)]
pub struct QueryParams {
    pairs: Vec<(String, String)>,
}

impl QueryParams {
    /// The parameters as name/value pairs, sorted by name.
    pub closed spec fn pairs(&self) -> Seq<(Seq<char>, Seq<char>)> {
        pairs_view(self.pairs@)
    }

    /// The parameters are sorted by name, without repeated names.
    pub open spec fn wf(&self) -> bool {
        sorted_keys(self.pairs())
    }

    /// The parameters as a map from names to values.
    pub open spec fn as_map(&self) -> Map<Seq<char>, Seq<char>> {
        pairs_map(self.pairs())
    }

    /// No parameters.
    pub fn new() -> (r: Self)
        ensures
            r.wf(),
            r.pairs() == Seq::<(Seq<char>, Seq<char>)>::empty(),
    {
        let r = QueryParams { pairs: Vec::new() };
        assert(r.pairs() =~= Seq::<(Seq<char>, Seq<char>)>::empty());
        r
    }

    /// Whether there are no parameters.
    pub fn is_empty(&self) -> (r: bool)
        ensures
            r == (self.pairs().len() == 0),
    {
        self.pairs.len() == 0
    }

    /// The parameters as name/value pairs, sorted by name.
    pub fn as_pairs(&self) -> (r: &Vec<(String, String)>)
        ensures
            pairs_view(r@) == self.pairs(),
    {
        &self.pairs
    }

    /// Sets parameter `name` to `value`, replacing an earlier value of the
    /// same name.
    pub fn insert(&mut self, name: String, value: String)
        requires
            old(self).wf(),
        ensures
            final(self).wf(),
            final(self).as_map() == old(self).as_map().insert(name@, value@),
    {
        let ghost s = self.pairs();
        let key = chars_of(name.as_str());
        let n = self.pairs.len();
        let mut i: usize = 0;
        while i < n && chars_less(&chars_of(self.pairs[i].0.as_str()), &key)
            invariant
                n == self.pairs@.len(),
                s == self.pairs(),
                i <= n,
                key@ == name@,
                forall|j: int| 0 <= j < i ==> key_lt(#[trigger] s[j].0, name@),
            decreases n - i,
        {
            i = i + 1;
        }
        proof {
            lemma_sorted_distinct(s);
        }
        let replace = i < n && self.pairs[i].0 == name;
        let ghost new_pair = (name@, value@);
        if replace {
            self.pairs.set(i, (name, value));
            proof {
                let t = self.pairs();
                assert(t =~= s.update(i as int, new_pair));
                assert(s[i as int].0 == name@);
                assert(sorted_keys(t)) by {
                    assert forall|a: int, b: int| 0 <= a < b < t.len() implies key_lt(
                        #[trigger] t[a].0,
                        #[trigger] t[b].0,
                    ) by {
                        assert(t[a].0 == s[a].0 && t[b].0 == s[b].0);
                    }
                }
                crate::keyed::lemma_key_index(s, i as int);
                lemma_sorted_distinct(t);
                assert(pairs_map(t) =~= pairs_map(s).insert(new_pair.0, new_pair.1)) by {
                    assert forall|k: Seq<char>| #[trigger] has_key(t, k) == (has_key(s, k) || k == new_pair.0) by {
                        if has_key(t, k) {
                            let a = key_index(t, k);
                            if a != i {
                                assert(t[a] == s[a]);
                            }
                        }
                        if has_key(s, k) {
                            let a = key_index(s, k);
                            if a != i {
                                assert(t[a] == s[a]);
                            } else {
                                assert(t[i as int].0 == k);
                            }
                        }
                        if k == new_pair.0 {
                            assert(t[i as int].0 == k);
                        }
                    }
                    assert forall|k: Seq<char>| has_key(t, k) implies #[trigger] lookup(t, k)->0 == (
                        if k == new_pair.0 { new_pair.1 } else { lookup(s, k)->0 }) by {
                        let a = key_index(t, k);
                        crate::keyed::lemma_key_index(t, a);
                        if a != i {
                            assert(t[a] == s[a]);
                            crate::keyed::lemma_key_index(s, a);
                        }
                    }
                }
            }
        } else {
            self.pairs.insert(i, (name, value));
            proof {
                let t = self.pairs();
                assert(t =~= s.insert(i as int, new_pair));
                if i < n {
                    assert(s[i as int].0 != name@);
                    if !key_lt(s[i as int].0, name@) {
                        lemma_key_lt_total(s[i as int].0, name@);
                    }
                    assert(!key_lt(s[i as int].0, name@));
                    assert(key_lt(name@, s[i as int].0));
                }
                assert(sorted_keys(t)) by {
                    assert forall|a: int, b: int| 0 <= a < b < t.len() implies key_lt(
                        #[trigger] t[a].0,
                        #[trigger] t[b].0,
                    ) by {
                        if b < i {
                            assert(t[a] == s[a] && t[b] == s[b]);
                        } else if b == i {
                            assert(t[a] == s[a]);
                        } else if a == i {
                            assert(t[b] == s[b - 1]);
                            if b - 1 > i {
                                assert(key_lt(s[i as int].0, s[b - 1].0));
                                lemma_key_lt_transitive(name@, s[i as int].0, s[b - 1].0);
                            }
                        } else if a < i {
                            assert(t[a] == s[a] && t[b] == s[b - 1]);
                            if b - 1 >= i as int {
                                assert(key_lt(name@, s[b - 1].0)) by {
                                    if b - 1 > i {
                                        assert(key_lt(s[i as int].0, s[b - 1].0));
                                        lemma_key_lt_transitive(name@, s[i as int].0, s[b - 1].0);
                                    }
                                }
                                lemma_key_lt_transitive(s[a].0, name@, s[b - 1].0);
                            }
                        } else {
                            assert(t[a] == s[a - 1] && t[b] == s[b - 1]);
                        }
                    }
                }
                lemma_sorted_distinct(t);
                assert(!has_key(s, name@)) by {
                    if has_key(s, name@) {
                        let a = key_index(s, name@);
                        if a < i {
                            assert(key_lt(s[a].0, name@));
                            lemma_key_lt_irreflexive(name@);
                        } else if a > i {
                            assert(key_lt(s[i as int].0, s[a].0));
                            lemma_key_lt_transitive(name@, s[i as int].0, name@);
                            lemma_key_lt_irreflexive(name@);
                        }
                    }
                }
                assert(pairs_map(t) =~= pairs_map(s).insert(new_pair.0, new_pair.1)) by {
                    assert forall|k: Seq<char>| #[trigger] has_key(t, k) == (has_key(s, k) || k == new_pair.0) by {
                        if has_key(t, k) {
                            let a = key_index(t, k);
                            if a < i {
                                assert(t[a] == s[a]);
                            } else if a > i {
                                assert(t[a] == s[a - 1]);
                            }
                        }
                        if has_key(s, k) {
                            let a = key_index(s, k);
                            if a < i {
                                assert(t[a] == s[a]);
                            } else {
                                assert(t[a + 1] == s[a]);
                            }
                        }
                        if k == new_pair.0 {
                            assert(t[i as int].0 == k);
                        }
                    }
                    assert forall|k: Seq<char>| has_key(t, k) implies #[trigger] lookup(t, k)->0 == (
                        if k == new_pair.0 { new_pair.1 } else { lookup(s, k)->0 }) by {
                        let a = key_index(t, k);
                        crate::keyed::lemma_key_index(t, a);
                        if a < i {
                            assert(t[a] == s[a]);
                            crate::keyed::lemma_key_index(s, a);
                        } else if a > i {
                            assert(t[a] == s[a - 1]);
                            crate::keyed::lemma_key_index(s, a - 1);
                        }
                    }
                }
            }
        }
    }

    /// Enables or disables reverse-DNS hostname resolution: sets parameter
    /// `hostname` to `true` or `false`.
    pub fn hostname(self, enabled: bool) -> (r: Self)
        requires
            self.wf(),
        ensures
            r.wf(),
            r.as_map() == self.as_map().insert(
                "hostname"@,
                if enabled {
                    "true"@
                } else {
                    "false"@
                },
            ),
    {
        let mut p = self;
        let value = if enabled {
            String::from_str("true")
        } else {
            String::from_str("false")
        };
        p.insert(String::from_str("hostname"), value);
        p
    }

    /// Restricts the response to the given fields: sets parameter `fields`
    /// to `expression`.
    pub fn fields(self, expression: String) -> (r: Self)
        requires
            self.wf(),
        ensures
            r.wf(),
            r.as_map() == self.as_map().insert("fields"@, expression@),
    {
        let mut p = self;
        p.insert(String::from_str("fields"), expression);
        p
    }

    /// Sets an arbitrary query parameter.
    pub fn param(self, name: String, value: String) -> (r: Self)
        requires
            self.wf(),
        ensures
            r.wf(),
            r.as_map() == self.as_map().insert(name@, value@),
    {
        let mut p = self;
        p.insert(name, value);
        p
    }
}

/// Parameters set in any order serialize the same way: two well-formed
/// parameter sets that map the same names to the same values hold the same
/// pairs, in the same order.
pub proof fn lemma_params_order_independent(a: QueryParams, b: QueryParams)
    requires
        a.wf(),
        b.wf(),
        a.as_map() == b.as_map(),
    ensures
        a.pairs() == b.pairs(),
{
    lemma_sorted_pairs_unique(a.pairs(), b.pairs());
}

/// A byte that `application/x-www-form-urlencoded` serialization writes as
/// itself: ASCII letters, digits, and `*`, `-`, `.`, `_`.
pub open spec fn form_unreserved(b: u8) -> bool {
    ||| b == 0x2a
    ||| b == 0x2d
    ||| b == 0x2e
    ||| 0x30 <= b <= 0x39
    ||| 0x41 <= b <= 0x5a
    ||| b == 0x5f
    ||| 0x61 <= b <= 0x7a
}

/// Upper-case hexadecimal digit of `d < 16`.
pub open spec fn hex_upper(d: nat) -> char {
    if d < 10 {
        (48 + d) as char
    } else {
        (55 + d) as char
    }
}

/// The serialization of one byte: unreserved bytes as themselves, a space
/// as `+`, any other byte as `%XX` in upper-case hexadecimal.
pub open spec fn form_byte(b: u8) -> Seq<char> {
    if form_unreserved(b) {
        seq![b as char]
    } else if b == 0x20 {
        seq!['+']
    } else {
        seq!['%', hex_upper((b / 16) as nat), hex_upper((b % 16) as nat)]
    }
}

/// The serialization of a byte string, byte by byte.
pub open spec fn form_bytes(bs: Seq<u8>) -> Seq<char>
    decreases bs.len(),
{
    if bs.len() == 0 {
        Seq::empty()
    } else {
        form_byte(bs[0]) + form_bytes(bs.drop_first())
    }
}

/// The serialization of a name or a value: its UTF-8 bytes, serialized.
pub open spec fn form_component(s: Seq<char>) -> Seq<char> {
    form_bytes(encode_utf8(s))
}

/// `application/x-www-form-urlencoded` serialization of name/value pairs:
/// `name=value` for each pair, in order, separated by `&`.
pub open spec fn form_urlencoded(pairs: Seq<(Seq<char>, Seq<char>)>) -> Seq<char>
    decreases pairs.len(),
{
    if pairs.len() == 0 {
        Seq::empty()
    } else {
        let last = form_component(pairs.last().0) + seq!['='] + form_component(pairs.last().1);
        if pairs.len() == 1 {
            last
        } else {
            form_urlencoded(pairs.drop_last()) + seq!['&'] + last
        }
    }
}

/// `form_urlencoded::Serializer` of the `url` crate, fed the pairs in order
/// with `extend_pairs`: each pair is written `name=value` with names and
/// values serialized byte by byte from their UTF-8 encoding, and pairs are
/// separated by `&`.
#[verifier::external_body]
fn encode_query(pairs: &Vec<(String, String)>) -> (r: String)
    ensures
        r@ == form_urlencoded(pairs_view(pairs@)),
{
    url::form_urlencoded::Serializer::new(String::new()).extend_pairs(pairs.iter()).finish()
}

/// The query string of the parameters, names and values serialized as
/// `application/x-www-form-urlencoded`, in name order.
pub fn query_string(params: &QueryParams) -> (r: String)
    ensures
        r@ == form_urlencoded(params.pairs()),
{
    encode_query(params.as_pairs())
}

/// The cache key of a lookup of the IP address written `ip` with the given
/// parameters: the address alone without parameters, otherwise the address,
/// `;`, and the query string.
pub open spec fn cache_key_spec(ip: Seq<char>, params: Seq<(Seq<char>, Seq<char>)>) -> Seq<char> {
    if params.len() == 0 {
        ip
    } else {
        ip + seq![';'] + form_urlencoded(params)
    }
}

/// Derives a deterministic cache key from the textual form of an IP address
/// and the query parameters. Parameters are serialized in name order, so the
/// key does not depend on the order in which options were applied.
pub fn cache_key(ip: &str, params: &QueryParams) -> (r: String)
    ensures
        r@ == cache_key_spec(ip@, params.pairs()),
{
    let mut key = ip.to_owned();
    if params.is_empty() {
        return key;
    }
    let query = query_string(params);
    key.append(";");
    key.append(query.as_str());
    proof {
        reveal_strlit(";");
        assert(";"@ =~= seq![';']);
    }
    key
}

/// The cache key does not depend on the order in which parameters were set:
/// parameter sets with the same names and values give the same key.
pub proof fn lemma_cache_key_order_independent(ip: Seq<char>, a: QueryParams, b: QueryParams)
    requires
        a.wf(),
        b.wf(),
        a.as_map() == b.as_map(),
    ensures
        cache_key_spec(ip, a.pairs()) == cache_key_spec(ip, b.pairs()),
{
    lemma_params_order_independent(a, b);
}

// ---------------------------------------------------------------------------
// Distinct lookups get distinct cache keys.
// ---------------------------------------------------------------------------

/// No character of `s` is `c`.
pub open spec fn lacks(s: Seq<char>, c: char) -> bool {
    forall|i: int| 0 <= i < s.len() ==> #[trigger] s[i] != c
}

proof fn lemma_form_byte_shape(b: u8)
    ensures
        form_byte(b).len() == if form_byte(b)[0] == '%' {
            3nat
        } else {
            1nat
        },
        lacks(form_byte(b), '&'),
        lacks(form_byte(b), '='),
{
}

proof fn lemma_hex_upper_injective(d1: nat, d2: nat)
    requires
        d1 < 16,
        d2 < 16,
        hex_upper(d1) == hex_upper(d2),
    ensures
        d1 == d2,
{
}

proof fn lemma_form_byte_injective(a: u8, b: u8)
    requires
        form_byte(a) == form_byte(b),
    ensures
        a == b,
{
    if form_byte(a)[0] == '%' {
        lemma_hex_upper_injective((a / 16) as nat, (b / 16) as nat);
        lemma_hex_upper_injective((a % 16) as nat, (b % 16) as nat);
    }
}

proof fn lemma_form_bytes_lacks(bs: Seq<u8>)
    ensures
        lacks(form_bytes(bs), '&'),
        lacks(form_bytes(bs), '='),
    decreases bs.len(),
{
    if bs.len() > 0 {
        lemma_form_byte_shape(bs[0]);
        lemma_form_bytes_lacks(bs.drop_first());
        let f = form_byte(bs[0]);
        let r = form_bytes(bs.drop_first());
        assert forall|i: int| 0 <= i < (f + r).len() implies #[trigger] (f + r)[i] != '&' && (f
            + r)[i] != '=' by {
            if i < f.len() {
                assert((f + r)[i] == f[i]);
            } else {
                assert((f + r)[i] == r[i - f.len()]);
            }
        }
    }
}

proof fn lemma_form_bytes_injective(x: Seq<u8>, y: Seq<u8>)
    requires
        form_bytes(x) == form_bytes(y),
    ensures
        x == y,
    decreases x.len(),
{
    if x.len() == 0 {
        if y.len() > 0 {
            lemma_form_byte_shape(y[0]);
            assert(form_bytes(y).len() > 0);
        }
        assert(x =~= y);
    } else {
        if y.len() == 0 {
            lemma_form_byte_shape(x[0]);
            assert(form_bytes(x).len() > 0);
        }
        let fx = form_byte(x[0]);
        let fy = form_byte(y[0]);
        let rx = form_bytes(x.drop_first());
        let ry = form_bytes(y.drop_first());
        let whole = fx + rx;
        lemma_form_byte_shape(x[0]);
        lemma_form_byte_shape(y[0]);
        assert(whole == fy + ry);
        assert(whole[0] == fx[0]);
        assert(whole[0] == (fy + ry)[0]);
        assert(fx.len() == fy.len());
        assert(fx =~= whole.subrange(0, fx.len() as int));
        assert(fy =~= (fy + ry).subrange(0, fy.len() as int));
        lemma_form_byte_injective(x[0], y[0]);
        assert(rx =~= whole.subrange(fx.len() as int, whole.len() as int));
        assert(ry =~= (fy + ry).subrange(fy.len() as int, whole.len() as int));
        lemma_form_bytes_injective(x.drop_first(), y.drop_first());
        assert(x =~= seq![x[0]] + x.drop_first());
        assert(y =~= seq![y[0]] + y.drop_first());
    }
}

proof fn lemma_form_component_injective(a: Seq<char>, b: Seq<char>)
    requires
        form_component(a) == form_component(b),
    ensures
        a == b,
{
    lemma_form_bytes_injective(encode_utf8(a), encode_utf8(b));
    vstd::utf8::encode_utf8_decode_utf8(a);
    vstd::utf8::encode_utf8_decode_utf8(b);
}

/// Splitting at the last `c`: when neither tail holds `c`, equal texts
/// `a1 c b1` and `a2 c b2` have equal heads and equal tails.
#[verifier::spinoff_prover]
proof fn lemma_split_at_last(a1: Seq<char>, b1: Seq<char>, a2: Seq<char>, b2: Seq<char>, c: char)
    requires
        lacks(b1, c),
        lacks(b2, c),
        a1 + seq![c] + b1 == a2 + seq![c] + b2,
    ensures
        a1 == a2,
        b1 == b2,
{
    let w = a1 + seq![c] + b1;
    let w2 = a2 + seq![c] + b2;
    assert(w[a1.len() as int] == c);
    assert(w2[a2.len() as int] == c);
    assert(w.len() == w2.len());
    if a1.len() < a2.len() {
        let j: int = a2.len() - a1.len() - 1;
        let h = a1 + seq![c];
        assert(h.len() == a1.len() + 1);
        assert(w =~= h + b1);
        assert(0 <= j < b1.len());
        assert(a2.len() as int == h.len() + j);
        assert((h + b1)[h.len() + j] == b1[j]);
        assert(b1[j] != c);
    } else if a2.len() < a1.len() {
        let j: int = a1.len() - a2.len() - 1;
        let h = a2 + seq![c];
        assert(h.len() == a2.len() + 1);
        assert(w2 =~= h + b2);
        assert(0 <= j < b2.len());
        assert(a1.len() as int == h.len() + j);
        assert((h + b2)[h.len() + j] == b2[j]);
        assert(b2[j] != c);
    }
    assert(a1 =~= w.subrange(0, a1.len() as int));
    assert(a2 =~= w2.subrange(0, a2.len() as int));
    assert(b1 =~= w.subrange(a1.len() as int + 1, w.len() as int));
    assert(b2 =~= w2.subrange(a2.len() as int + 1, w2.len() as int));
}

/// Splitting at the first `c`: when neither head holds `c`, equal texts
/// `a1 c b1` and `a2 c b2` have equal heads and equal tails.
#[verifier::spinoff_prover]
proof fn lemma_split_at_first(a1: Seq<char>, b1: Seq<char>, a2: Seq<char>, b2: Seq<char>, c: char)
    requires
        lacks(a1, c),
        lacks(a2, c),
        a1 + seq![c] + b1 == a2 + seq![c] + b2,
    ensures
        a1 == a2,
        b1 == b2,
{
    let w = a1 + seq![c] + b1;
    let w2 = a2 + seq![c] + b2;
    assert(w[a1.len() as int] == c);
    assert(w2[a2.len() as int] == c);
    if a1.len() < a2.len() {
        assert(w2[a1.len() as int] == a2[a1.len() as int]);
    } else if a2.len() < a1.len() {
        assert(w[a2.len() as int] == a1[a2.len() as int]);
    }
    assert(a1 =~= w.subrange(0, a1.len() as int));
    assert(a2 =~= w2.subrange(0, a2.len() as int));
    assert(b1 =~= w.subrange(a1.len() as int + 1, w.len() as int));
    assert(b2 =~= w2.subrange(a2.len() as int + 1, w2.len() as int));
}

/// The serialization `name=value` of the last pair.
spec fn last_pair_text(p: Seq<(Seq<char>, Seq<char>)>) -> Seq<char> {
    form_component(p.last().0) + seq!['='] + form_component(p.last().1)
}

proof fn lemma_last_pair_text(p: Seq<(Seq<char>, Seq<char>)>)
    requires
        p.len() > 0,
    ensures
        lacks(last_pair_text(p), '&'),
        lacks(form_component(p.last().0), '='),
        lacks(form_component(p.last().1), '='),
        lacks(form_component(p.last().1), '&'),
{
    lemma_form_bytes_lacks(encode_utf8(p.last().0));
    lemma_form_bytes_lacks(encode_utf8(p.last().1));
    let n = form_component(p.last().0);
    let v = form_component(p.last().1);
    let t = n + seq!['='] + v;
    assert forall|i: int| 0 <= i < t.len() implies #[trigger] t[i] != '&' by {
        if i < n.len() {
            assert(t[i] == n[i]);
        } else if i > n.len() {
            assert(t[i] == v[i - n.len() - 1]);
        }
    }
}

/// `application/x-www-form-urlencoded` serialization is injective on
/// non-empty lists of pairs.
proof fn lemma_form_urlencoded_injective(
    p1: Seq<(Seq<char>, Seq<char>)>,
    p2: Seq<(Seq<char>, Seq<char>)>,
)
    requires
        p1.len() > 0,
        p2.len() > 0,
        form_urlencoded(p1) == form_urlencoded(p2),
    ensures
        p1 == p2,
    decreases p1.len(),
{
    lemma_last_pair_text(p1);
    lemma_last_pair_text(p2);
    let l1 = last_pair_text(p1);
    let l2 = last_pair_text(p2);
    if p1.len() == 1 && p2.len() > 1 {
        let r = form_urlencoded(p2.drop_last());
        assert((r + seq!['&'] + l2)[r.len() as int] == '&');
        assert(l1[r.len() as int] == '&');
    } else if p2.len() == 1 && p1.len() > 1 {
        let r = form_urlencoded(p1.drop_last());
        assert((r + seq!['&'] + l1)[r.len() as int] == '&');
        assert(l2[r.len() as int] == '&');
    } else {
        if p1.len() > 1 {
            lemma_split_at_last(
                form_urlencoded(p1.drop_last()),
                l1,
                form_urlencoded(p2.drop_last()),
                l2,
                '&',
            );
            lemma_form_urlencoded_injective(p1.drop_last(), p2.drop_last());
        }
        lemma_split_at_last(
            form_component(p1.last().0),
            form_component(p1.last().1),
            form_component(p2.last().0),
            form_component(p2.last().1),
            '=',
        );
        lemma_form_component_injective(p1.last().0, p2.last().0);
        lemma_form_component_injective(p1.last().1, p2.last().1);
        assert(p1 =~= p1.drop_last().push(p1.last()));
        assert(p2 =~= p2.drop_last().push(p2.last()));
    }
}

/// Distinct lookups get distinct cache keys: for address texts without `;`
/// (as the text of every IP address is), two cache keys are equal exactly
/// when the address texts are equal and the parameters map the same names
/// to the same values.
pub proof fn lemma_cache_key_injective(ip1: Seq<char>, ip2: Seq<char>, a: QueryParams, b: QueryParams)
    requires
        a.wf(),
        b.wf(),
        lacks(ip1, ';'),
        lacks(ip2, ';'),
    ensures
        cache_key_spec(ip1, a.pairs()) == cache_key_spec(ip2, b.pairs()) <==> (ip1 == ip2
            && a.as_map() == b.as_map()),
{
    let p1 = a.pairs();
    let p2 = b.pairs();
    if ip1 == ip2 && a.as_map() == b.as_map() {
        lemma_params_order_independent(a, b);
    }
    if cache_key_spec(ip1, p1) == cache_key_spec(ip2, p2) {
        if p1.len() == 0 && p2.len() > 0 {
            let k = ip2 + seq![';'] + form_urlencoded(p2);
            assert(k[ip2.len() as int] == ';');
            assert(ip1[ip2.len() as int] == ';');
        } else if p2.len() == 0 && p1.len() > 0 {
            let k = ip1 + seq![';'] + form_urlencoded(p1);
            assert(k[ip1.len() as int] == ';');
            assert(ip2[ip1.len() as int] == ';');
        } else if p1.len() > 0 {
            lemma_split_at_first(ip1, form_urlencoded(p1), ip2, form_urlencoded(p2), ';');
            lemma_form_urlencoded_injective(p1, p2);
        } else {
            assert(p1 =~= p2);
        }
    }
}

} // verus!
