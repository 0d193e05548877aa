//! A JSON document as the settings layer reads and patches it.
//!
//! Numbers are carried as their text: the library never computes with them,
//! it only moves them from one document to another. An object is a list of
//! entries; in a well-formed document (`wf_json`), as a parser produces, no
//! object holds a key twice.

use vstd::prelude::*;

verus! {

/// A JSON value.
#[derive(Debug, PartialEq)]
pub enum JsonValue {
    Null,
    Bool(bool),
    /// the number as it is written
    Number(String),
    Text(String),
    Array(Vec<JsonValue>),
    /// key/value entries in order
    Object(Vec<(String, JsonValue)>),
}

/// What a JSON value means: the same tree over sequences.
pub enum Json {
    Null,
    Bool(bool),
    Number(Seq<char>),
    Text(Seq<char>),
    Array(Seq<Json>),
    Object(Seq<(Seq<char>, Json)>),
}

impl View for JsonValue {
    type V = Json;

    open spec fn view(&self) -> Json {
        json_of(*self)
    }
}

/// The meaning of a value.
pub open spec fn json_of(v: JsonValue) -> Json
    decreases v, 1nat,
{
    match v {
        JsonValue::Null => Json::Null,
        JsonValue::Bool(b) => Json::Bool(b),
        JsonValue::Number(n) => Json::Number(n@),
        JsonValue::Text(t) => Json::Text(t@),
        JsonValue::Array(items) => Json::Array(items_view(items@)),
        JsonValue::Object(entries) => Json::Object(entries_view(entries@)),
    }
}

/// The meaning of a list of values.
pub open spec fn items_view(s: Seq<JsonValue>) -> Seq<Json>
    decreases s, 0nat,
{
    Seq::new(
        s.len(),
        |i: int|
            if 0 <= i < s.len() {
                json_of(s[i])
            } else {
                Json::Null
            },
    )
}

/// The meaning of a list of entries.
pub open spec fn entries_view(s: Seq<(String, JsonValue)>) -> Seq<(Seq<char>, Json)>
    decreases s, 0nat,
{
    Seq::new(
        s.len(),
        |i: int|
            if 0 <= i < s.len() {
                (s[i].0@, json_of(s[i].1))
            } else {
                (Seq::empty(), Json::Null)
            },
    )
}

/// An object's meaning is the meaning of its entries.
pub proof fn lemma_object_view(e: Vec<(String, JsonValue)>)
    ensures
        JsonValue::Object(e)@ == Json::Object(entries_view(e@)),
{
}

/// An array's meaning is the meaning of its items.
pub proof fn lemma_array_view(v: Vec<JsonValue>)
    ensures
        JsonValue::Array(v)@ == Json::Array(items_view(v@)),
{
}

/// Position of the entry with key `k`, or -1 when there is none.
pub open spec fn key_pos(entries: Seq<(Seq<char>, Json)>, k: Seq<char>) -> int
    decreases entries.len(),
{
    if entries.len() == 0 {
        -1
    } else if entries[0].0 == k {
        0
    } else {
        let r = key_pos(entries.drop_first(), k);
        if r < 0 {
            -1
        } else {
            r + 1
        }
    }
}

/// What `key_pos` returns: the first entry with the key, or -1 when no
/// entry has it.
pub proof fn lemma_key_pos(entries: Seq<(Seq<char>, Json)>, k: Seq<char>)
    ensures
        -1 <= key_pos(entries, k) < entries.len(),
        key_pos(entries, k) >= 0 ==> entries[key_pos(entries, k)].0 == k,
        forall|j: int| 0 <= j < key_pos(entries, k) ==> (#[trigger] entries[j]).0 != k,
        key_pos(entries, k) < 0 <==> forall|j: int|
            0 <= j < entries.len() ==> (#[trigger] entries[j]).0 != k,
    decreases entries.len(),
{
    if entries.len() > 0 && entries[0].0 != k {
        let t = entries.drop_first();
        lemma_key_pos(t, k);
        assert forall|j: int| 0 < j < entries.len() implies entries[j] == t[j - 1] by {}
        if key_pos(t, k) < 0 {
            assert forall|j: int| 0 <= j < entries.len() implies (#[trigger] entries[j]).0 != k by {
                if j > 0 {
                    assert(entries[j] == t[j - 1]);
                }
            }
        } else {
            assert forall|j: int| 0 <= j < key_pos(entries, k) implies (#[trigger] entries[j]).0
                != k by {
                if j > 0 {
                    assert(entries[j] == t[j - 1]);
                }
            }
        }
    }
}

/// The first entry with key `k` is at `i`.
pub proof fn lemma_key_pos_at(entries: Seq<(Seq<char>, Json)>, k: Seq<char>, i: int)
    requires
        0 <= i < entries.len(),
        entries[i].0 == k,
        forall|j: int| 0 <= j < i ==> (#[trigger] entries[j]).0 != k,
    ensures
        key_pos(entries, k) == i,
{
    lemma_key_pos(entries, k);
    let r = key_pos(entries, k);
    if r < 0 {
        assert(entries[i].0 != k);
    } else if r < i {
        assert(entries[r].0 != k);
    } else if r > i {
        assert(entries[i].0 != k);
    }
}

/// The value under key `k`.
pub open spec fn lookup(entries: Seq<(Seq<char>, Json)>, k: Seq<char>) -> Option<Json> {
    let i = key_pos(entries, k);
    if i >= 0 {
        Some(entries[i].1)
    } else {
        None
    }
}

/// The value under key `k` of an object; nothing for any other value.
pub open spec fn child(v: Json, k: Seq<char>) -> Option<Json> {
    match v {
        Json::Object(e) => lookup(e, k),
        _ => None,
    }
}

/// No key occurs twice.
pub open spec fn distinct_keys(entries: Seq<(Seq<char>, Json)>) -> bool {
    forall|i: int, j: int|
        0 <= i < j < entries.len() ==> #[trigger] entries[i].0 != #[trigger] entries[j].0
}

/// `patch` laid over `base`: where both are objects, each key of the patch
/// is merged into the base's value under that key, or added at the end when
/// the base has no such key; any other patch replaces the base.
pub open spec fn merged(base: Json, patch: Json) -> Json
    decreases patch, 0nat,
{
    match (base, patch) {
        (Json::Object(b), Json::Object(p)) => Json::Object(merged_entries(b, p, p.len())),
        _ => patch,
    }
}

/// The entries `b` with the first `n` entries of `p` merged in, in order.
pub open spec fn merged_entries(
    b: Seq<(Seq<char>, Json)>,
    p: Seq<(Seq<char>, Json)>,
    n: nat,
) -> Seq<(Seq<char>, Json)>
    decreases p, n,
{
    if n == 0 || n > p.len() {
        b
    } else {
        let acc = merged_entries(b, p, (n - 1) as nat);
        let k = p[n - 1].0;
        let i = key_pos(acc, k);
        if i >= 0 {
            acc.update(i, (k, merged(acc[i].1, p[n - 1].1)))
        } else {
            acc.push(p[n - 1])
        }
    }
}

/// The entries `b` with the first `n` entries of `p` inserted in order: an
/// entry replaces the one with its key, or is appended.
pub open spec fn inserted_entries(
    b: Seq<(Seq<char>, Json)>,
    p: Seq<(Seq<char>, Json)>,
    n: nat,
) -> Seq<(Seq<char>, Json)>
    decreases n,
{
    if n == 0 || n > p.len() {
        b
    } else {
        let acc = inserted_entries(b, p, (n - 1) as nat);
        let i = key_pos(acc, p[n - 1].0);
        if i >= 0 {
            acc.update(i, p[n - 1])
        } else {
            acc.push(p[n - 1])
        }
    }
}

/// One level of merging: the entries of an object `extra` inserted into the
/// object `base`; an object `extra` replaces any other base; any other
/// `extra` leaves the base alone.
pub open spec fn shallow_merged(base: Json, extra: Json) -> Json {
    match (base, extra) {
        (Json::Object(b), Json::Object(p)) => Json::Object(inserted_entries(b, p, p.len())),
        (_, Json::Object(_)) => extra,
        _ => base,
    }
}

/// The text of a value that is a string; empty for anything else.
pub open spec fn text_or_empty(v: Option<Json>) -> Seq<char> {
    match v {
        Some(Json::Text(t)) => t,
        _ => Seq::empty(),
    }
}

/// What a merge leaves under a patched key: the base's value with the
/// patch's laid over it, or the patch's value alone.
pub open spec fn combined(base: Option<Json>, patch: Json) -> Json {
    match base {
        Some(v) => merged(v, patch),
        None => patch,
    }
}

/// Two entry lists with the same keys at the same places find every key at
/// the same place.
pub proof fn lemma_key_pos_same_keys(
    s: Seq<(Seq<char>, Json)>,
    t: Seq<(Seq<char>, Json)>,
    k: Seq<char>,
)
    requires
        s.len() == t.len(),
        forall|j: int| 0 <= j < s.len() ==> (#[trigger] s[j]).0 == t[j].0,
    ensures
        key_pos(s, k) == key_pos(t, k),
{
    lemma_key_pos(s, k);
    lemma_key_pos(t, k);
    let a = key_pos(s, k);
    if a >= 0 {
        assert forall|j: int| 0 <= j < a implies (#[trigger] t[j]).0 != k by {
            assert(s[j].0 != k);
        }
        lemma_key_pos_at(t, k, a);
    } else {
        assert forall|j: int| 0 <= j < t.len() implies (#[trigger] t[j]).0 != k by {
            assert(s[j].0 != k);
        }
    }
}

/// Appending an entry whose key is new: that key is found at the end, every
/// other key where it was.
pub proof fn lemma_key_pos_push(s: Seq<(Seq<char>, Json)>, x: (Seq<char>, Json), k: Seq<char>)
    requires
        key_pos(s, x.0) < 0,
    ensures
        key_pos(s.push(x), k) == if k == x.0 {
            s.len() as int
        } else {
            key_pos(s, k)
        },
{
    let t = s.push(x);
    lemma_key_pos(s, k);
    lemma_key_pos(s, x.0);
    lemma_key_pos(t, k);
    if k == x.0 {
        assert forall|j: int| 0 <= j < s.len() implies (#[trigger] t[j]).0 != k by {
            assert(t[j] == s[j]);
            assert(s[j].0 != x.0);
        }
        lemma_key_pos_at(t, k, s.len() as int);
    } else {
        let a = key_pos(s, k);
        if a >= 0 {
            assert(t[a] == s[a]);
            assert forall|j: int| 0 <= j < a implies (#[trigger] t[j]).0 != k by {
                assert(t[j] == s[j]);
                assert(s[j].0 != k);
            }
            lemma_key_pos_at(t, k, a);
        } else {
            assert forall|j: int| 0 <= j < t.len() implies (#[trigger] t[j]).0 != k by {
                if j < s.len() {
                    assert(t[j] == s[j]);
                    assert(s[j].0 != k);
                }
            }
        }
    }
}

/// Replacing the value of the entry at `i`, key kept: the key's lookup gives
/// the new value, every other key's lookup is unchanged.
pub proof fn lemma_lookup_update(s: Seq<(Seq<char>, Json)>, i: int, v: Json, k: Seq<char>)
    requires
        i == key_pos(s, s[i].0),
        0 <= i < s.len(),
    ensures
        lookup(s.update(i, (s[i].0, v)), k) == if k == s[i].0 {
            Some(v)
        } else {
            lookup(s, k)
        },
{
    let t = s.update(i, (s[i].0, v));
    assert forall|j: int| 0 <= j < s.len() implies (#[trigger] s[j]).0 == t[j].0 by {}
    lemma_key_pos_same_keys(s, t, k);
    lemma_key_pos(s, k);
    if k != s[i].0 && key_pos(s, k) >= 0 {
        assert(key_pos(s, k) != i);
    }
}

/// The lookup of every key in the entries after `n` patch entries: a key of
/// the patch holds the combination of the base's value with the patch's, a
/// key absent from those entries what the base held.
pub proof fn lemma_merged_entries_lookup(
    b: Seq<(Seq<char>, Json)>,
    p: Seq<(Seq<char>, Json)>,
    n: nat,
    k: Seq<char>,
)
    requires
        n <= p.len(),
    ensures
        (forall|j: int| 0 <= j < n ==> (#[trigger] p[j]).0 != k) ==> lookup(
            merged_entries(b, p, n),
            k,
        ) == lookup(b, k),
        distinct_keys(p) ==> forall|j: int|
            0 <= j < n && (#[trigger] p[j]).0 == k ==> lookup(merged_entries(b, p, n), k) == Some(
                combined(lookup(b, k), p[j].1),
            ),
    decreases n,
{
    if n > 0 {
        let m = (n - 1) as nat;
        lemma_merged_entries_lookup(b, p, m, k);
        let acc = merged_entries(b, p, m);
        let kn = p[m as int].0;
        let i = key_pos(acc, kn);
        lemma_key_pos(acc, kn);
        if i >= 0 {
            lemma_lookup_update(acc, i, merged(acc[i].1, p[m as int].1), k);
            if k == kn {
                assert(lookup(acc, k) == Some(acc[i].1));
                if distinct_keys(p) {
                    assert forall|j: int| 0 <= j < m implies (#[trigger] p[j]).0 != k by {
                        assert(p[j].0 != p[m as int].0);
                    }
                }
            }
        } else {
            lemma_key_pos_push(acc, p[m as int], k);
            if k == kn {
                assert(lookup(acc, k) == None::<Json>);
                if distinct_keys(p) {
                    assert forall|j: int| 0 <= j < m implies (#[trigger] p[j]).0 != k by {
                        assert(p[j].0 != p[m as int].0);
                    }
                }
            } else {
                let ks = key_pos(acc, k);
                lemma_key_pos(acc, k);
                if ks >= 0 {
                    assert(acc.push(p[m as int])[ks] == acc[ks]);
                }
            }
        }
    }
}

/// A merge keeps keys distinct: updates keep their key and a key is only
/// appended when the entries lack it.
pub proof fn lemma_merged_entries_distinct(
    b: Seq<(Seq<char>, Json)>,
    p: Seq<(Seq<char>, Json)>,
    n: nat,
)
    requires
        distinct_keys(b),
        n <= p.len(),
    ensures
        distinct_keys(merged_entries(b, p, n)),
    decreases n,
{
    if n > 0 {
        let m = (n - 1) as nat;
        lemma_merged_entries_distinct(b, p, m);
        let acc = merged_entries(b, p, m);
        let kn = p[m as int].0;
        lemma_key_pos(acc, kn);
        let r = merged_entries(b, p, n);
        if key_pos(acc, kn) >= 0 {
            assert forall|i: int, j: int| 0 <= i < j < r.len() implies #[trigger] r[i].0
                != #[trigger] r[j].0 by {
                assert(r[i].0 == acc[i].0 && r[j].0 == acc[j].0);
            }
        } else {
            assert forall|i: int, j: int| 0 <= i < j < r.len() implies #[trigger] r[i].0
                != #[trigger] r[j].0 by {
                if j < acc.len() {
                    assert(r[i] == acc[i] && r[j] == acc[j]);
                } else {
                    assert(r[i] == acc[i]);
                    assert(acc[i].0 != kn);
                }
            }
        }
    }
}

/// Every object in the document, at any depth, has distinct keys.
pub open spec fn wf_json(j: Json) -> bool
    decreases j, 1nat, 0nat,
{
    match j {
        Json::Object(e) => distinct_keys(e) && wf_entries(e, e.len()),
        Json::Array(a) => wf_items(a, a.len()),
        _ => true,
    }
}

/// The first `n` entry values are well formed.
pub open spec fn wf_entries(e: Seq<(Seq<char>, Json)>, n: nat) -> bool
    decreases e, 0nat, n,
{
    if n == 0 || n > e.len() {
        true
    } else {
        wf_entries(e, (n - 1) as nat) && wf_json(e[n - 1].1)
    }
}

/// The first `n` items are well formed.
pub open spec fn wf_items(a: Seq<Json>, n: nat) -> bool
    decreases a, 0nat, n,
{
    if n == 0 || n > a.len() {
        true
    } else {
        wf_items(a, (n - 1) as nat) && wf_json(a[n - 1])
    }
}

/// `wf_entries` says each of the first `n` values is well formed.
pub proof fn lemma_wf_entries(e: Seq<(Seq<char>, Json)>, n: nat)
    requires
        n <= e.len(),
    ensures
        wf_entries(e, n) <==> forall|i: int| 0 <= i < n ==> #[trigger] wf_json(e[i].1),
    decreases n,
{
    if n > 0 {
        let m = (n - 1) as nat;
        lemma_wf_entries(e, m);
        if wf_entries(e, n) {
            assert forall|i: int| 0 <= i < n implies #[trigger] wf_json(e[i].1) by {
                if i < m {
                    assert(wf_json(e[i].1));
                }
            }
        }
        if forall|i: int| 0 <= i < n ==> #[trigger] wf_json(e[i].1) {
            assert(wf_json(e[m as int].1));
            assert forall|i: int| 0 <= i < m implies #[trigger] wf_json(e[i].1) by {
                assert(wf_json(e[i].1));
            }
        }
    }
}

/// Laying a document over itself changes nothing.
pub proof fn lemma_self_merge(x: Json)
    requires
        wf_json(x),
    ensures
        merged(x, x) == x,
    decreases x,
{
    if let Json::Object(e) = x {
        lemma_wf_entries(e, e.len());
        lemma_self_merge_entries(e, e.len());
        assert(merged_entries(e, e, e.len()) == e);
    }
}

proof fn lemma_self_merge_entries(e: Seq<(Seq<char>, Json)>, n: nat)
    requires
        distinct_keys(e),
        forall|i: int| 0 <= i < e.len() ==> #[trigger] wf_json(e[i].1),
        n <= e.len(),
    ensures
        merged_entries(e, e, n) == e,
    decreases e, n,
{
    if n > 0 {
        let m = (n - 1) as nat;
        lemma_self_merge_entries(e, m);
        let k = e[m as int].0;
        assert forall|j: int| 0 <= j < m implies (#[trigger] e[j]).0 != k by {
            assert(e[j].0 != e[m as int].0);
        }
        lemma_key_pos_at(e, k, m as int);
        assert(decreases_to!(e => e[m as int]));
        lemma_self_merge(e[m as int].1);
        assert(e.update(m as int, (k, merged(e[m as int].1, e[m as int].1))) =~= e);
    }
}

/// Laying the same patch twice gives what laying it once gave.
pub proof fn lemma_merge_idempotent(b: Json, p: Json)
    requires
        wf_json(p),
    ensures
        merged(merged(b, p), p) == merged(b, p),
    decreases p,
{
    match (b, p) {
        (Json::Object(bs), Json::Object(ps)) => {
            lemma_wf_entries(ps, ps.len());
            let e = merged_entries(bs, ps, ps.len());
            lemma_merge_idempotent_entries(bs, ps, e, ps.len());
        },
        _ => {
            lemma_self_merge(p);
        },
    }
}

proof fn lemma_merge_idempotent_entries(
    bs: Seq<(Seq<char>, Json)>,
    ps: Seq<(Seq<char>, Json)>,
    e: Seq<(Seq<char>, Json)>,
    n: nat,
)
    requires
        e == merged_entries(bs, ps, ps.len()),
        distinct_keys(ps),
        forall|i: int| 0 <= i < ps.len() ==> #[trigger] wf_json(ps[i].1),
        n <= ps.len(),
    ensures
        merged_entries(e, ps, n) == e,
    decreases ps, n,
{
    if n > 0 {
        let m = (n - 1) as nat;
        lemma_merge_idempotent_entries(bs, ps, e, m);
        let k = ps[m as int].0;
        let pv = ps[m as int].1;
        lemma_merged_entries_lookup(bs, ps, ps.len(), k);
        assert(ps[m as int].0 == k);
        lemma_key_pos(e, k);
        let i = key_pos(e, k);
        assert(i >= 0);
        assert(e[i].1 == combined(lookup(bs, k), pv));
        assert(decreases_to!(ps => ps[m as int]));
        match lookup(bs, k) {
            Some(bv) => {
                lemma_merge_idempotent(bv, pv);
            },
            None => {
                lemma_self_merge(pv);
            },
        }
        assert(e.update(i, (k, merged(e[i].1, pv))) =~= e);
    }
}

/// Merging well-formed documents gives a well-formed document.
pub proof fn lemma_merge_wf(b: Json, p: Json)
    requires
        wf_json(b),
        wf_json(p),
    ensures
        wf_json(merged(b, p)),
    decreases p, 0nat,
{
    if let (Json::Object(bs), Json::Object(ps)) = (b, p) {
        lemma_wf_entries(bs, bs.len());
        lemma_wf_entries(ps, ps.len());
        lemma_merged_entries_wf(bs, ps, ps.len());
        lemma_merged_entries_distinct(bs, ps, ps.len());
        let e = merged_entries(bs, ps, ps.len());
        lemma_wf_entries(e, e.len());
    }
}

proof fn lemma_merged_entries_wf(bs: Seq<(Seq<char>, Json)>, ps: Seq<(Seq<char>, Json)>, n: nat)
    requires
        forall|i: int| 0 <= i < bs.len() ==> #[trigger] wf_json(bs[i].1),
        forall|i: int| 0 <= i < ps.len() ==> #[trigger] wf_json(ps[i].1),
        n <= ps.len(),
    ensures
        forall|i: int|
            0 <= i < merged_entries(bs, ps, n).len() ==> #[trigger] wf_json(
                merged_entries(bs, ps, n)[i].1,
            ),
    decreases ps, n,
{
    if n > 0 {
        let m = (n - 1) as nat;
        lemma_merged_entries_wf(bs, ps, m);
        let acc = merged_entries(bs, ps, m);
        let k = ps[m as int].0;
        lemma_key_pos(acc, k);
        let i = key_pos(acc, k);
        let r = merged_entries(bs, ps, n);
        assert(wf_json(ps[m as int].1));
        if i >= 0 {
            assert(wf_json(acc[i].1));
            assert(decreases_to!(ps => ps[m as int]));
            lemma_merge_wf(acc[i].1, ps[m as int].1);
            assert forall|j: int| 0 <= j < r.len() implies #[trigger] wf_json(r[j].1) by {
                if j != i {
                    assert(r[j] == acc[j]);
                }
            }
        } else {
            assert forall|j: int| 0 <= j < r.len() implies #[trigger] wf_json(r[j].1) by {
                if j < acc.len() {
                    assert(r[j] == acc[j]);
                }
            }
        }
    }
}

impl JsonValue {
    /// An independent copy with the same meaning.
    pub fn deep_copy(&self) -> (r: JsonValue)
        ensures
            r@ == self@,
        decreases self,
    {
        match self {
            JsonValue::Null => JsonValue::Null,
            JsonValue::Bool(b) => JsonValue::Bool(*b),
            JsonValue::Number(n) => JsonValue::Number(n.clone()),
            JsonValue::Text(t) => JsonValue::Text(t.clone()),
            JsonValue::Array(items) => {
                let mut out: Vec<JsonValue> = Vec::new();
                let mut i: usize = 0;
                while i < items.len()
                    invariant
                        i <= items.len(),
                        out.len() == i,
                        forall|j: int| 0 <= j < i ==> (#[trigger] out@[j])@ == items@[j]@,
                        *self == JsonValue::Array(*items),
                    decreases items.len() - i,
                {
                    proof {
                        vstd::std_specs::vec::axiom_vec_index_decreases(*items, i as int);
                        assert(decreases_to!(*self => self->Array_0));
                    }
                    let c = items[i].deep_copy();
                    out.push(c);
                    i += 1;
                }
                proof {
                    lemma_array_view(out);
                    lemma_array_view(*items);
                    assert(items_view(out@) =~= items_view(items@));
                }
                JsonValue::Array(out)
            },
            JsonValue::Object(entries) => {
                let mut out: Vec<(String, JsonValue)> = Vec::new();
                let mut i: usize = 0;
                while i < entries.len()
                    invariant
                        i <= entries.len(),
                        out.len() == i,
                        forall|j: int|
                            0 <= j < i ==> (#[trigger] out@[j]).0@ == entries@[j].0@
                                && out@[j].1@ == entries@[j].1@,
                        *self == JsonValue::Object(*entries),
                    decreases entries.len() - i,
                {
                    proof {
                        vstd::std_specs::vec::axiom_vec_index_decreases(*entries, i as int);
                        assert(decreases_to!(*self => self->Object_0));
                        assert(decreases_to!(entries@[i as int] => entries@[i as int].1));
                    }
                    let c = entries[i].1.deep_copy();
                    let k = entries[i].0.clone();
                    out.push((k, c));
                    i += 1;
                }
                proof {
                    lemma_object_view(out);
                    lemma_object_view(*entries);
                    assert(entries_view(out@) =~= entries_view(entries@));
                }
                JsonValue::Object(out)
            },
        }
    }
}

/// Position of the entry of `entries` with key `k`.
pub fn find_key(entries: &Vec<(String, JsonValue)>, k: &String) -> (r: Option<usize>)
    ensures
        match r {
            Some(i) => i == key_pos(entries_view(entries@), k@),
            None => key_pos(entries_view(entries@), k@) == -1,
        },
{
    let ghost s = entries_view(entries@);
    let mut i: usize = 0;
    while i < entries.len()
        invariant
            i <= entries.len(),
            s == entries_view(entries@),
            forall|j: int| 0 <= j < i ==> (#[trigger] s[j]).0 != k@,
        decreases entries.len() - i,
    {
        if crate::text::str_eq(entries[i].0.as_str(), k.as_str()) {
            proof {
                lemma_key_pos_at(s, k@, i as int);
            }
            return Some(i);
        }
        i += 1;
    }
    proof {
        lemma_key_pos(s, k@);
    }
    None
}

/// The value under key `k` of an object value.
pub fn child_of<'a>(v: &'a JsonValue, k: &String) -> (r: Option<&'a JsonValue>)
    ensures
        match r {
            Some(c) => child(v@, k@) == Some(c@),
            None => child(v@, k@) is None,
        },
{
    match v {
        JsonValue::Object(entries) => {
            proof {
                lemma_object_view(*entries);
            }
            match find_key(entries, k) {
                Some(j) => {
                    proof {
                        lemma_key_pos(entries_view(entries@), k@);
                    }
                    Some(&entries[j].1)
                },
                None => None,
            }
        },
        _ => None,
    }
}

} // verus!
