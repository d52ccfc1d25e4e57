//! A small key-value database shared by several readers and one writer.
//!
//! The database maps names to numbers and lists its names; the writer's
//! entries are numbered: the `i`-th is named `key_i` and holds `10 * i`.
//! Locking and sharing between tasks happen outside this crate.

use vstd::prelude::*;
use vstd::hash_map::StringHashMap;
use vstd::string::*;
use crate::decimal::{append_decimal, decimal, lemma_decimal_injective};

verus! {

/// Number of reader tasks.
pub const READER_COUNT: u32 = 5;

/// Number of times each reader looks at the names.
pub const READ_ROUNDS: u32 = 3;

/// Pause of a reader between two looks, in milliseconds.
pub const READ_PAUSE_MS: u64 = 100;

/// Number of entries the writer inserts.
pub const WRITE_COUNT: u32 = 5;

/// Pause of the writer between two insertions, in milliseconds.
pub const WRITE_PAUSE_MS: u64 = 150;

/// Factor from an entry's number to its value.
pub const VALUE_FACTOR: u32 = 10;

/// A map from names to numbers that can list its names.
pub struct Db {
    map: StringHashMap<i32>,
    names: Vec<String>,
}

impl View for Db {
    type V = Map<Seq<char>, i32>;

    closed spec fn view(&self) -> Map<Seq<char>, i32> {
        self.map@
    }
}

/// What a lookup of `key` in a database whose contents are `m` returns.
pub open spec fn spec_lookup(m: Map<Seq<char>, i32>, key: Seq<char>) -> Option<i32> {
    if m.contains_key(key) { Some(m[key]) } else { None }
}

/// `names` lists exactly the keys of `m`, each once.
pub open spec fn lists_keys_once(names: Seq<Seq<char>>, m: Map<Seq<char>, i32>) -> bool {
    &&& forall|i: int| 0 <= i < names.len() ==> m.contains_key(#[trigger] names[i])
    &&& forall|k: Seq<char>| #[trigger] m.contains_key(k) ==> exists|i: int|
        0 <= i < names.len() && names[i] == k
    &&& forall|i: int, j: int| 0 <= i < j < names.len() ==> names[i] != names[j]
}

/// The views of a sequence of strings.
pub open spec fn string_views(v: Seq<String>) -> Seq<Seq<char>> {
    v.map_values(|s: String| s@)
}

/// The names of a sequence of entries.
pub open spec fn entry_names(v: Seq<(String, i32)>) -> Seq<Seq<char>> {
    v.map_values(|e: (String, i32)| e.0@)
}

impl Db {
    /// The internal name list lists each key of the map once.
    #[verifier::type_invariant]
    spec fn wf(self) -> bool {
        lists_keys_once(string_views(self.names@), self.map@)
    }

    /// An empty database.
    pub fn new() -> (db: Db)
        ensures
            db@ == Map::<Seq<char>, i32>::empty(),
    {
        let db = Db { map: StringHashMap::new(), names: Vec::new() };
        assert(string_views(db.names@) =~= Seq::<Seq<char>>::empty());
        db
    }

    /// Number of entries.
    pub fn len(&self) -> (n: usize)
        ensures
            n == self@.len(),
    {
        self.map.len()
    }

    /// Binds `key` to `value`, replacing any earlier value of `key`.
    pub fn insert(&mut self, key: String, value: i32)
        ensures
            final(self)@ == old(self)@.insert(key@, value),
    {
        proof {
            use_type_invariant(&*self);
        }
        let mut taken = Db::new();
        std::mem::swap(&mut taken, self);
        let Db { mut map, mut names } = taken;
        let ghost old_names = string_views(names@);
        let ghost old_map = map@;
        if !map.contains_key(key.as_str()) {
            names.push(key.clone());
            proof {
                let new_names = string_views(names@);
                assert(new_names =~= old_names.push(key@));
                assert forall|i: int, j: int| 0 <= i < j < new_names.len() implies new_names[i]
                    != new_names[j] by {
                    if j == new_names.len() - 1 {
                        assert(old_map.contains_key(old_names[i]));
                    }
                }
            }
        }
        map.insert(key, value);
        proof {
            let new_names = string_views(names@);
            let new_map = map@;
            assert forall|k: Seq<char>| #[trigger] new_map.contains_key(k) implies exists|i: int|
                0 <= i < new_names.len() && new_names[i] == k by {
                if k != key@ {
                    assert(old_map.contains_key(k));
                    let i = choose|i: int| 0 <= i < old_names.len() && old_names[i] == k;
                    assert(new_names[i] == k);
                } else if old_map.contains_key(k) {
                    let i = choose|i: int| 0 <= i < old_names.len() && old_names[i] == k;
                    assert(new_names[i] == k);
                } else {
                    assert(new_names[new_names.len() - 1] == k);
                }
            }
        }
        *self = Db { map, names };
    }

    /// The value bound to `key`, if any.
    pub fn get(&self, key: &str) -> (value: Option<i32>)
        ensures
            value == spec_lookup(self@, key@),
            value is Some <==> self@.contains_key(key@),
            value matches Some(v) ==> v == self@[key@],
    {
        match self.map.get(key) {
            Some(v) => Some(*v),
            None => None,
        }
    }

    /// The names bound in the database, each once, in no particular order
    /// that callers may rely on.
    pub fn names(&self) -> (names: Vec<String>)
        ensures
            lists_keys_once(string_views(names@), self@),
    {
        proof {
            use_type_invariant(self);
        }
        let mut out: Vec<String> = Vec::new();
        let n = self.names.len();
        for i in 0..n
            invariant
                n == self.names@.len(),
                out@.len() == i,
                string_views(out@) == string_views(self.names@).take(i as int),
        {
            let ghost prev = out@;
            let name = self.names[i].clone();
            assert(name@ == self.names@[i as int]@);
            out.push(name);
            proof {
                assert(out@ == prev.push(name));
                assert forall|k: int| 0 <= k < i + 1 implies #[trigger] string_views(out@)[k]
                    == string_views(self.names@).take(i + 1)[k] by {
                    assert(string_views(out@).len() == i + 1);
                    assert(string_views(out@)[k] == out@[k]@);
                    assert(string_views(self.names@)[k] == self.names@[k]@);
                    if k < i {
                        assert(string_views(prev)[k] == string_views(self.names@).take(i as int)[k]);
                        assert(out@[k] == prev[k]);
                    } else {
                        assert(out@[k] == name);
                    }
                }
                assert(string_views(out@) =~= string_views(self.names@).take(i + 1));
            }
        }
        proof {
            assert(string_views(out@) =~= string_views(self.names@));
        }
        out
    }

    /// Every entry of the database as a name and its value, each name once.
    pub fn entries(&self) -> (entries: Vec<(String, i32)>)
        ensures
            lists_keys_once(entry_names(entries@), self@),
            forall|i: int| 0 <= i < entries.len() ==> #[trigger] entries@[i].1 == self@[entries@[i].0@],
    {
        proof {
            use_type_invariant(self);
        }
        let mut out: Vec<(String, i32)> = Vec::new();
        let n = self.names.len();
        let ghost names = string_views(self.names@);
        for i in 0..n
            invariant
                n == self.names@.len(),
                names == string_views(self.names@),
                lists_keys_once(names, self.map@),
                out@.len() == i,
                entry_names(out@) == names.take(i as int),
                forall|j: int| 0 <= j < out.len() ==> #[trigger] out@[j].1 == self@[out@[j].0@],
        {
            let ghost prev = out@;
            let name = self.names[i].clone();
            assert(name@ == names[i as int]);
            assert(self.map@.contains_key(names[i as int]));
            let value = match self.map.get(name.as_str()) {
                Some(v) => *v,
                None => 0,
            };
            out.push((name, value));
            proof {
                assert(out@ == prev.push((name, value)));
                assert forall|k: int| 0 <= k < i + 1 implies #[trigger] entry_names(out@)[k]
                    == names.take(i + 1)[k] by {
                    if k < i {
                        assert(entry_names(prev)[k] == names.take(i as int)[k]);
                    }
                }
                assert(entry_names(out@) =~= names.take(i + 1));
            }
        }
        proof {
            assert(entry_names(out@) =~= names);
        }
        out
    }
}

/// The name of the writer's `i`-th entry: `key_` followed by `i` in decimal.
pub open spec fn entry_name(i: nat) -> Seq<char> {
    "key_"@ + decimal(i)
}

/// The value of the writer's `i`-th entry.
pub open spec fn entry_value(i: nat) -> int {
    i * VALUE_FACTOR
}

/// The name of the writer's `i`-th entry.
pub fn entry_key(i: u32) -> (name: String)
    ensures
        name@ == entry_name(i as nat),
{
    let mut name = String::from_str("key_");
    append_decimal(&mut name, i);
    name
}

/// The writer's `i`-th entry: the name `key_i` and the value `10 * i`, which
/// must fit in an `i32`.
pub fn writer_entry(i: u32) -> (entry: (String, i32))
    requires
        entry_value(i as nat) <= i32::MAX,
    ensures
        entry.0@ == entry_name(i as nat),
        entry.1 == entry_value(i as nat),
        entry.1 == i * 10,
{
    (entry_key(i), (i * VALUE_FACTOR) as i32)
}

/// The database after the writer's first `n` entries, inserted in order
/// into an empty one.
pub open spec fn written(n: nat) -> Map<Seq<char>, i32>
    decreases n,
{
    if n == 0 {
        Map::empty()
    } else {
        written((n - 1) as nat).insert(entry_name((n - 1) as nat), entry_value((n - 1) as nat) as i32)
    }
}

/// Distinct entries have distinct names.
pub proof fn lemma_entry_names_distinct(i: nat, j: nat)
    requires
        entry_name(i) == entry_name(j),
    ensures
        i == j,
{
    let p = "key_"@;
    assert(decimal(i) =~= entry_name(i).subrange(p.len() as int, entry_name(i).len() as int));
    assert(decimal(j) =~= entry_name(j).subrange(p.len() as int, entry_name(j).len() as int));
    lemma_decimal_injective(i, j);
}

/// After the writer's first `n` entries the database holds exactly the
/// names `key_0` .. `key_(n-1)`, the `i`-th with value `10 * i`: a reader
/// sees the writer's entries as a prefix, never a gap.
pub proof fn lemma_written_contents(n: nat)
    requires
        entry_value(n) <= i32::MAX,
    ensures
        forall|i: nat| i < n ==> #[trigger] written(n).contains_key(entry_name(i))
            && written(n)[entry_name(i)] == entry_value(i),
        forall|k: Seq<char>| #[trigger] written(n).contains_key(k) ==> exists|i: nat|
            i < n && k == entry_name(i),
    decreases n,
{
    if n > 0 {
        let m = (n - 1) as nat;
        lemma_written_contents(m);
        assert forall|i: nat| i < n implies #[trigger] written(n).contains_key(entry_name(i))
            && written(n)[entry_name(i)] == entry_value(i) by {
            assert(entry_value(m) <= entry_value(n));
            if i < m {
                if entry_name(i) == entry_name(m) {
                    lemma_entry_names_distinct(i, m);
                }
                assert(written(m).contains_key(entry_name(i)));
            }
        }
        assert forall|k: Seq<char>| #[trigger] written(n).contains_key(k) implies exists|i: nat|
            i < n && k == entry_name(i) by {
            if k != entry_name(m) {
                assert(written(m).contains_key(k));
            }
        }
    }
}

/// A read after a write gives back what was written, and a write leaves
/// the reads of every other name as they were: stated over the contents that
/// `Db::insert` produces and that `Db::get` reads.
pub proof fn lemma_read_after_write(m: Map<Seq<char>, i32>, key: Seq<char>, value: i32, other: Seq<char>)
    requires
        other != key,
    ensures
        spec_lookup(m.insert(key, value), key) == Some(value),
        spec_lookup(m.insert(key, value), other) == spec_lookup(m, other),
{
}

} // verus!
