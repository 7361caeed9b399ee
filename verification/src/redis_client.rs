//! What the browser reads from Redis about a key: its type, and for a hash the map
//! from field names to values, kept in ascending order of field names.
use vstd::prelude::*;
use crate::text::{lex_le, lex_lt, lex_le_str, lemma_lex_le_total, lemma_lex_le_transitive,
    lemma_lex_le_antisymmetric, owned, push_str};

verus! {

/// A field name and its value, as character sequences.
pub type PairView = (Seq<char>, Seq<char>);

/// The character view of a field/value pair.
pub open spec fn pair_view(e: (String, String)) -> PairView {
    (e.0@, e.1@)
}

/// The character views of a sequence of field/value pairs.
pub open spec fn pairs_view(s: Seq<(String, String)>) -> Seq<PairView> {
    s.map_values(|e: (String, String)| pair_view(e))
}

/// The field names of `s` are in strictly ascending order (so none occurs twice).
pub open spec fn keys_ascending(s: Seq<PairView>) -> bool {
    forall|i: int, j: int| 0 <= i < j < s.len() ==> lex_lt(#[trigger] s[i].0, #[trigger] s[j].0)
}

/// `k` is the field name at some position of `s`.
pub open spec fn has_key(s: Seq<PairView>, k: Seq<char>) -> bool {
    exists|i: int| 0 <= i < s.len() && #[trigger] s[i].0 == k
}

/// The map from field names to values that a sequence of pairs with distinct field
/// names stands for.
pub open spec fn entries_map(s: Seq<PairView>) -> Map<Seq<char>, Seq<char>> {
    Map::new(
        |k: Seq<char>| has_key(s, k),
        |k: Seq<char>| s[choose|i: int| 0 <= i < s.len() && #[trigger] s[i].0 == k].1,
    )
}

/// The map that inserting the pairs of `s` one after the other into an empty map
/// builds: where a field name occurs twice, the later value wins.
pub open spec fn insert_all(s: Seq<PairView>) -> Map<Seq<char>, Seq<char>>
    decreases s.len(),
{
    if s.len() == 0 {
        Map::empty()
    } else {
        insert_all(s.drop_last()).insert(s.last().0, s.last().1)
    }
}

/// The contents of a Redis hash: its field/value pairs in ascending order of field names.
///
/// This is an ordered map of its own, a vector kept sorted and free of repeated field
/// names, rather than `std::collections::BTreeMap<String, String>`: vstd's
/// specification of `BTreeMap` holds only for key types whose `Ord` it knows to obey
/// its model of ordering, and it has no such fact for `String`, so over `String` keys
/// it would give neither the map nor the order in which the fields come out.
pub struct RedisHash {
    entries: Vec<(String, String)>,
}

impl View for RedisHash {
    type V = Seq<PairView>;

    closed spec fn view(&self) -> Seq<PairView> {
        pairs_view(self.entries@)
    }
}

impl RedisHash {
    #[verifier::type_invariant]
    closed spec fn inv(self) -> bool {
        keys_ascending(pairs_view(self.entries@))
    }

    /// The hash as a map from field names to values.
    pub open spec fn map(&self) -> Map<Seq<char>, Seq<char>> {
        entries_map(self@)
    }

    /// A hash without fields.
    pub fn new() -> (r: RedisHash)
        ensures
            r@ == Seq::<PairView>::empty(),
    {
        let r = RedisHash { entries: Vec::new() };
        assert(pairs_view(r.entries@) =~= Seq::<PairView>::empty());
        r
    }

    /// The number of fields.
    pub fn len(&self) -> (r: usize)
        ensures
            r == self@.len(),
    {
        self.entries.len()
    }

    /// The pairs in ascending order of field names.
    pub fn into_entries(self) -> (r: Vec<(String, String)>)
        ensures
            pairs_view(r@) == self@,
            keys_ascending(pairs_view(r@)),
    {
        proof {
            use_type_invariant(&self);
        }
        self.entries
    }

    /// The pairs in ascending order of field names.
    pub fn entries(&self) -> (r: &Vec<(String, String)>)
        ensures
            pairs_view(r@) == self@,
            keys_ascending(pairs_view(r@)),
    {
        proof {
            use_type_invariant(self);
        }
        &self.entries
    }

    /// Sets field `key` to `value`: replaces its value if the field exists, and
    /// otherwise adds the field at its place in the order.
    pub fn insert(&mut self, key: String, value: String)
        ensures
            keys_ascending(final(self)@),
            final(self).map() == old(self).map().insert(key@, value@),
    {
        proof {
            use_type_invariant(&*self);
        }
        let ghost s = self@;
        let n = self.entries.len();
        // p is the number of field names strictly below `key`.
        let mut p: usize = 0;
        while p < n && !lex_le_str(key.as_str(), self.entries[p].0.as_str())
            invariant
                n == self.entries.len(),
                s == pairs_view(self.entries@),
                p <= n,
                forall|i: int| 0 <= i < p ==> lex_lt(#[trigger] s[i].0, key@),
            decreases n - p,
        {
            proof {
                lemma_lex_le_total(key@, s[p as int].0);
                if s[p as int].0 == key@ {
                    crate::text::lemma_lex_le_reflexive(key@);
                }
            }
            p = p + 1;
        }
        proof {
            // every name from position p on is at least `key`
            assert forall|i: int| p <= i < s.len() implies lex_le(key@, #[trigger] s[i].0) by {
                if i > p {
                    lemma_lex_le_transitive(key@, s[p as int].0, s[i].0);
                }
            }
        }
        let pair = (key, value);
        let ghost e = pair_view(pair);
        let mut entries: Vec<(String, String)> = Vec::new();
        std::mem::swap(&mut entries, &mut self.entries);
        if p < n && entries[p].0 == pair.0 {
            let ghost s2 = s.update(p as int, e);
            entries.set(p, pair);
            proof {
                assert(pairs_view(entries@) =~= s2);
                lemma_map_update(s, p as int, e);
            }
        } else {
            let ghost s2 = s.insert(p as int, e);
            entries.insert(p, pair);
            proof {
                assert(pairs_view(entries@) =~= s2);
                assert forall|i: int| p <= i < s.len() implies lex_lt(e.0, #[trigger] s[i].0) by {
                    if i > p {
                        lemma_le_lt(e.0, s[p as int].0, s[i].0);
                    }
                }
                lemma_map_insert(s, p as int, e);
            }
        }
        self.entries = entries;
    }

    /// The hash that inserting the given pairs one after the other into an empty
    /// hash builds, as collecting them into an ordered map does.
    pub fn from_entries(pairs: Vec<(String, String)>) -> (r: RedisHash)
        ensures
            keys_ascending(r@),
            r.map() == insert_all(pairs_view(pairs@)),
    {
        let ghost input = pairs_view(pairs@);
        let mut r = RedisHash::new();
        for x in it: pairs
            invariant
                pairs_view(it.seq()) == input,
                r.map() == insert_all(input.take(it.index() as int)),
                keys_ascending(r@),
        {
            proof {
                let k = it.index() as int;
                assert(input.take(k + 1).drop_last() =~= input.take(k));
                assert(input[k] == pair_view(x));
            }
            r.insert(x.0, x.1);
        }
        assert(input.take(input.len() as int) =~= input);
        r
    }
}

/// Replacing the value of an existing field of a sequence with distinct field names
/// changes the map at that field only.
proof fn lemma_map_update(s: Seq<PairView>, p: int, e: PairView)
    requires
        keys_ascending(s),
        0 <= p < s.len(),
        s[p].0 == e.0,
    ensures
        keys_ascending(s.update(p, e)),
        entries_map(s.update(p, e)) == entries_map(s).insert(e.0, e.1),
{
    let s2 = s.update(p, e);
    assert forall|i: int, j: int| 0 <= i < j < s2.len() implies lex_lt(
        #[trigger] s2[i].0,
        #[trigger] s2[j].0,
    ) by {
        assert(s2[i].0 == s[i].0 && s2[j].0 == s[j].0);
    }
    lemma_unique_lookup(s2);
    lemma_unique_lookup(s);
    assert forall|k: Seq<char>| has_key(s, k) || k == e.0 implies has_key(s2, k) by {
        if k == e.0 {
            assert(s2[p].0 == k);
        } else if has_key(s, k) {
            let i = choose|i: int| 0 <= i < s.len() && #[trigger] s[i].0 == k;
            assert(s2[i].0 == k);
        }
    }
    assert forall|k: Seq<char>| has_key(s2, k) implies has_key(s, k) by {
        let i = choose|i: int| 0 <= i < s2.len() && #[trigger] s2[i].0 == k;
        assert(s[i].0 == k);
    }
    assert forall|k: Seq<char>| #[trigger] has_key(s2, k) && k != e.0 implies entries_map(s2)[k]
        == entries_map(s)[k] by {
        let i = choose|i: int| 0 <= i < s2.len() && #[trigger] s2[i].0 == k;
        assert(s[i].0 == k);
    }
    assert(entries_map(s2)[e.0] == e.1) by {
        assert(s2[p].0 == e.0);
    }
    assert(entries_map(s2) =~= entries_map(s).insert(e.0, e.1));
}

/// Adding a new field at its place in the order of a sequence with distinct field
/// names adds it to the map.
proof fn lemma_map_insert(s: Seq<PairView>, p: int, e: PairView)
    requires
        keys_ascending(s),
        0 <= p <= s.len(),
        forall|i: int| 0 <= i < p ==> lex_lt(#[trigger] s[i].0, e.0),
        forall|i: int| p <= i < s.len() ==> lex_lt(e.0, #[trigger] s[i].0),
    ensures
        keys_ascending(s.insert(p, e)),
        entries_map(s.insert(p, e)) == entries_map(s).insert(e.0, e.1),
{
    let s2 = s.insert(p, e);
    assert forall|i: int, j: int| 0 <= i < j < s2.len() implies lex_lt(
        #[trigger] s2[i].0,
        #[trigger] s2[j].0,
    ) by {
        if i < p && j == p {
        } else if i == p {
            assert(s2[j] == s[j - 1]);
        } else if j < p {
        } else if i < p {
            assert(s2[j] == s[j - 1]);
            lemma_lex_lt_transitive(s[i].0, e.0, s[j - 1].0);
        } else {
            assert(s2[i] == s[i - 1] && s2[j] == s[j - 1]);
        }
    }
    lemma_unique_lookup(s2);
    lemma_unique_lookup(s);
    assert forall|k: Seq<char>| has_key(s, k) || k == e.0 implies has_key(s2, k) by {
        if k == e.0 {
            assert(s2[p].0 == k);
        } else if has_key(s, k) {
            let i = choose|i: int| 0 <= i < s.len() && #[trigger] s[i].0 == k;
            if i < p {
                assert(s2[i].0 == k);
            } else {
                assert(s2[i + 1].0 == k);
            }
        }
    }
    assert forall|k: Seq<char>| has_key(s2, k) && k != e.0 implies has_key(s, k) by {
        let i = choose|i: int| 0 <= i < s2.len() && #[trigger] s2[i].0 == k;
        if i < p {
            assert(s[i].0 == k);
        } else {
            assert(s[i - 1].0 == k);
        }
    }
    assert forall|k: Seq<char>| #[trigger] has_key(s2, k) && k != e.0 implies entries_map(s2)[k]
        == entries_map(s)[k] by {
        let i = choose|i: int| 0 <= i < s2.len() && #[trigger] s2[i].0 == k;
        if i < p {
            assert(s[i].0 == k);
        } else {
            assert(s[i - 1].0 == k);
        }
    }
    assert(entries_map(s2)[e.0] == e.1) by {
        assert(s2[p].0 == e.0);
    }
    assert(entries_map(s2) =~= entries_map(s).insert(e.0, e.1));
}

/// Below or equal, then strictly below, is strictly below.
proof fn lemma_le_lt(a: Seq<char>, b: Seq<char>, c: Seq<char>)
    requires
        lex_le(a, b),
        lex_lt(b, c),
    ensures
        lex_lt(a, c),
{
    lemma_lex_le_transitive(a, b, c);
    if a == c {
        lemma_lex_le_antisymmetric(b, c);
    }
}

/// Strict order is transitive.
proof fn lemma_lex_lt_transitive(a: Seq<char>, b: Seq<char>, c: Seq<char>)
    requires
        lex_lt(a, b),
        lex_lt(b, c),
    ensures
        lex_lt(a, c),
{
    lemma_lex_le_transitive(a, b, c);
    if a == c {
        lemma_lex_le_antisymmetric(a, b);
    }
}

/// In a sequence with distinct field names, the value that the map gives a field
/// is the value at the field's position.
proof fn lemma_unique_lookup(s: Seq<PairView>)
    requires
        keys_ascending(s),
    ensures
        forall|i: int| 0 <= i < s.len() ==> #[trigger] entries_map(s)[s[i].0] == s[i].1,
{
    assert forall|i: int| 0 <= i < s.len() implies #[trigger] entries_map(s)[s[i].0] == s[i].1 by {
        assert(has_key(s, s[i].0));
        let j = choose|j: int| 0 <= j < s.len() && #[trigger] s[j].0 == s[i].0;
        if j != i {
            if j < i {
                assert(lex_lt(s[j].0, s[i].0));
            } else {
                assert(lex_lt(s[i].0, s[j].0));
            }
        }
    }
}

/// What a Redis key holds: a hash, or a value of another type, which is not shown.
pub enum RedisValue {
    Unknown,
    Hash(RedisHash),
}

/// Whether a reply of the Redis command `TYPE` names a hash.
pub fn is_hash_type(redis_type: &str) -> (r: bool)
    ensures
        r == (redis_type@ == "hash"@),
{
    let t = owned(redis_type);
    let h = owned("hash");
    t == h
}

/// The line that shows one field of a hash: the name, a colon, a space and the value.
pub open spec fn field_line(e: PairView) -> Seq<char> {
    e.0 + ": "@ + e.1
}

/// The lines of `lines` joined by newline characters.
pub open spec fn join_lines(lines: Seq<Seq<char>>) -> Seq<char>
    decreases lines.len(),
{
    if lines.len() == 0 {
        Seq::empty()
    } else if lines.len() == 1 {
        lines[0]
    } else {
        join_lines(lines.drop_last()) + "\n"@ + lines.last()
    }
}

/// The text that shows a value: one line per field of a hash, in the order of
/// field names, and a fixed message for any other value.
pub open spec fn rendered(value: RedisValue) -> Seq<char> {
    match value {
        RedisValue::Unknown => "Unknown value"@,
        RedisValue::Hash(h) => join_lines(h@.map_values(|e: PairView| field_line(e))),
    }
}

/// Renders a value as text: `"Unknown value"` for a value that is not a hash, and
/// for a hash its fields as `name: value` lines joined by newlines.
pub fn render_redis_value(redis_value: RedisValue) -> (r: String)
    ensures
        r@ == rendered(redis_value),
{
    match redis_value {
        RedisValue::Unknown => owned("Unknown value"),
        RedisValue::Hash(hash) => {
            let ghost lines = hash@.map_values(|e: PairView| field_line(e));
            let entries = hash.entries();
            let mut out = String::new();
            let mut i: usize = 0;
            while i < entries.len()
                invariant
                    i <= entries.len(),
                    pairs_view(entries@) == hash@,
                    lines == hash@.map_values(|e: PairView| field_line(e)),
                    out@ == join_lines(lines.take(i as int)),
                decreases entries.len() - i,
            {
                if i > 0 {
                    push_str(&mut out, "\n");
                }
                push_str(&mut out, entries[i].0.as_str());
                push_str(&mut out, ": ");
                push_str(&mut out, entries[i].1.as_str());
                proof {
                    assert(lines.take(i + 1).drop_last() =~= lines.take(i as int));
                    assert(lines[i as int] == field_line(hash@[i as int]));
                    if i == 0 {
                        assert(out@ =~= join_lines(lines.take(1)));
                    } else {
                        assert(out@ =~= join_lines(lines.take(i + 1)));
                    }
                }
                i = i + 1;
            }
            assert(lines.take(i as int) =~= lines);
            out
        },
    }
}

} // verus!
