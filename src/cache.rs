use vstd::prelude::*;
use vstd::string::*;

verus! {

/// The last recorded value for key `k` in a list of (key, value) rows.
pub open spec fn row_value(rows: Seq<(Seq<char>, Seq<char>)>, k: Seq<char>) -> Option<Seq<char>>
    decreases rows.len(),
{
    if rows.len() == 0 {
        None
    } else if rows.last().0 == k {
        Some(rows.last().1)
    } else {
        row_value(rows.drop_last(), k)
    }
}

pub open spec fn keys_unique(rows: Seq<(Seq<char>, Seq<char>)>) -> bool {
    forall|i: int, j: int|
        0 <= i < rows.len() && 0 <= j < rows.len() && i != j ==> #[trigger] rows[i].0 != #[trigger] rows[j].0
}

/// The map that a list of rows with unique keys denotes.
pub open spec fn rows_map(rows: Seq<(Seq<char>, Seq<char>)>) -> Map<Seq<char>, Seq<char>> {
    Map::new(|k: Seq<char>| row_value(rows, k) is Some, |k: Seq<char>| row_value(rows, k)->Some_0)
}

proof fn lemma_row_value_absent(rows: Seq<(Seq<char>, Seq<char>)>, k: Seq<char>)
    requires
        forall|i: int| 0 <= i < rows.len() ==> (#[trigger] rows[i]).0 != k,
    ensures
        row_value(rows, k) is None,
    decreases rows.len(),
{
    if rows.len() > 0 {
        assert(rows[rows.len() - 1].0 != k);
        let d = rows.drop_last();
        assert forall|i: int| 0 <= i < d.len() implies (#[trigger] d[i]).0 != k by {
            assert(d[i] == rows[i]);
        }
        lemma_row_value_absent(d, k);
    }
}

proof fn lemma_row_value_at(rows: Seq<(Seq<char>, Seq<char>)>, i: int)
    requires
        keys_unique(rows),
        0 <= i < rows.len(),
    ensures
        row_value(rows, rows[i].0) == Some(rows[i].1),
    decreases rows.len(),
{
    if i != rows.len() - 1 {
        let d = rows.drop_last();
        assert(rows[rows.len() - 1].0 != rows[i].0);
        assert(d[i] == rows[i]);
        assert forall|a: int, b: int|
            0 <= a < d.len() && 0 <= b < d.len() && a != b implies #[trigger] d[a].0 != #[trigger] d[b].0 by {
            assert(d[a] == rows[a] && d[b] == rows[b]);
        }
        lemma_row_value_at(d, i);
    }
}

proof fn lemma_row_value_update(rows: Seq<(Seq<char>, Seq<char>)>, i: int, v: Seq<char>, k: Seq<char>)
    requires
        keys_unique(rows),
        0 <= i < rows.len(),
    ensures
        row_value(rows.update(i, (rows[i].0, v)), k) == if k == rows[i].0 {
            Some(v)
        } else {
            row_value(rows, k)
        },
    decreases rows.len(),
{
    let u = rows.update(i, (rows[i].0, v));
    if i == rows.len() - 1 {
        assert(u.drop_last() =~= rows.drop_last());
    } else {
        let d = rows.drop_last();
        assert(u.drop_last() =~= d.update(i, (d[i].0, v)));
        assert(rows[rows.len() - 1].0 != rows[i].0);
        assert forall|a: int, b: int|
            0 <= a < d.len() && 0 <= b < d.len() && a != b implies #[trigger] d[a].0 != #[trigger] d[b].0 by {
            assert(d[a] == rows[a] && d[b] == rows[b]);
        }
        lemma_row_value_update(d, i, v, k);
    }
}

/// Content-hash cache: canonical local path to hex digest, one row per path.
pub struct HashCache {
    rows: Vec<(String, String)>,
}

impl HashCache {
    pub closed spec fn rows_view(&self) -> Seq<(Seq<char>, Seq<char>)> {
        self.rows@.map_values(|r: (String, String)| (r.0@, r.1@))
    }

    pub closed spec fn wf(&self) -> bool {
        keys_unique(self.rows_view())
    }

    /// An empty cache.
    pub fn new() -> (r: HashCache)
        ensures
            r.wf(),
            r@ == Map::<Seq<char>, Seq<char>>::empty(),
    {
        let r = HashCache { rows: Vec::new() };
        assert(r@ =~= Map::<Seq<char>, Seq<char>>::empty());
        r
    }

    /// The recorded (path, digest) rows, each path once.
    pub fn records(&self) -> (r: &Vec<(String, String)>)
        requires
            self.wf(),
        ensures
            r@.len() == self@.dom().len(),
            forall|i: int| 0 <= i < r@.len() ==> self@.contains_key((#[trigger] r@[i]).0@)
                && self@[r@[i].0@] == r@[i].1@,
    {
        proof {
            let rv = self.rows_view();
            assert forall|i: int| 0 <= i < self.rows@.len() implies self@.contains_key((#[trigger] self.rows@[i]).0@)
                && self@[self.rows@[i].0@] == self.rows@[i].1@ by {
                lemma_row_value_at(rv, i);
            }
            lemma_dom_len(rv);
        }
        &self.rows
    }
}

proof fn lemma_dom_len(rows: Seq<(Seq<char>, Seq<char>)>)
    requires
        keys_unique(rows),
    ensures
        rows_map(rows).dom().finite(),
        rows_map(rows).dom().len() == rows.len(),
    decreases rows.len(),
{
    if rows.len() == 0 {
        assert(rows_map(rows).dom() =~= Set::<Seq<char>>::empty());
    } else {
        let d = rows.drop_last();
        let k = rows.last().0;
        assert forall|a: int, b: int|
            0 <= a < d.len() && 0 <= b < d.len() && a != b implies #[trigger] d[a].0 != #[trigger] d[b].0 by {
            assert(d[a] == rows[a] && d[b] == rows[b]);
        }
        lemma_dom_len(d);
        assert forall|i: int| 0 <= i < d.len() implies (#[trigger] d[i]).0 != k by {
            assert(d[i] == rows[i]);
            assert(rows[rows.len() - 1].0 != rows[i].0);
        }
        lemma_row_value_absent(d, k);
        assert(rows_map(rows).dom() =~= rows_map(d).dom().insert(k));
    }
}

impl View for HashCache {
    type V = Map<Seq<char>, Seq<char>>;

    closed spec fn view(&self) -> Map<Seq<char>, Seq<char>> {
        rows_map(self.rows_view())
    }
}

/// The digest last recorded for `path`, if any.
pub fn query_file_sha256(cache: &HashCache, path: &str) -> (r: Option<String>)
    requires
        cache.wf(),
    ensures
        match r {
            Some(v) => cache@.contains_key(path@) && cache@[path@] == v@,
            None => !cache@.contains_key(path@),
        },
{
    let key = String::from_str(path);
    let ghost rv = cache.rows_view();
    let n = cache.rows.len();
    let mut i: usize = 0;
    while i < n
        invariant
            n == cache.rows@.len(),
            rv == cache.rows_view(),
            keys_unique(rv),
            key@ == path@,
            0 <= i <= n,
            forall|j: int| 0 <= j < i ==> (#[trigger] rv[j]).0 != path@,
        decreases n - i,
    {
        if cache.rows[i].0 == key {
            proof {
                lemma_row_value_at(rv, i as int);
            }
            return Some(cache.rows[i].1.clone());
        }
        i = i + 1;
    }
    proof {
        lemma_row_value_absent(rv, path@);
    }
    None
}

/// Records `sha256` as the digest of `path`, replacing any earlier record of
/// that exact path.
pub fn insert_or_update_file_sha256(cache: &mut HashCache, path: &str, sha256: &str)
    requires
        old(cache).wf(),
    ensures
        final(cache).wf(),
        final(cache)@ == old(cache)@.insert(path@, sha256@),
{
    let key = String::from_str(path);
    let value = String::from_str(sha256);
    let ghost rv = cache.rows_view();
    let n = cache.rows.len();
    let mut i: usize = 0;
    while i < n
        invariant
            n == cache.rows@.len(),
            rv == cache.rows_view(),
            keys_unique(rv),
            *cache == *old(cache),
            key@ == path@,
            value@ == sha256@,
            0 <= i <= n,
            forall|j: int| 0 <= j < i ==> (#[trigger] rv[j]).0 != path@,
        decreases n - i,
    {
        if cache.rows[i].0 == key {
            cache.rows.set(i, (key, value));
            proof {
                let nv = cache.rows_view();
                assert(nv =~= rv.update(i as int, (rv[i as int].0, sha256@)));
                assert forall|a: int, b: int|
                    0 <= a < nv.len() && 0 <= b < nv.len() && a != b implies #[trigger] nv[a].0 != #[trigger] nv[b].0 by {
                    assert(nv[a].0 == rv[a].0 && nv[b].0 == rv[b].0);
                }
                assert forall|k: Seq<char>| #![auto] true implies row_value(cache.rows_view(), k) == if k == path@ {
                    Some(sha256@)
                } else {
                    row_value(rv, k)
                } by {
                    lemma_row_value_update(rv, i as int, sha256@, k);
                }
                assert(cache@ =~= old(cache)@.insert(path@, sha256@));
            }
            return;
        }
        i = i + 1;
    }
    cache.rows.push((key, value));
    proof {
        let nv = cache.rows_view();
        assert(nv =~= rv.push((path@, sha256@)));
        assert(nv.drop_last() =~= rv);
        assert forall|a: int, b: int|
            0 <= a < nv.len() && 0 <= b < nv.len() && a != b implies #[trigger] nv[a].0 != #[trigger] nv[b].0 by {
            if a < n && b < n {
                assert(nv[a] == rv[a] && nv[b] == rv[b]);
            } else if a < n {
                assert(nv[a] == rv[a]);
            } else {
                assert(nv[b] == rv[b]);
            }
        }
        assert(cache@ =~= old(cache)@.insert(path@, sha256@));
    }
}

} // verus!
