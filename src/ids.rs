//! Compact integer handles for named assets, assigned in first-seen order.

use vstd::prelude::*;

verus! {

/// The number of assets at which a table can no longer be built.
pub const MAX_ASSETS: usize = 255;

/// Why assets cannot be numbered or looked up.
#[derive(Clone, Debug, PartialEq, Eq)]
pub enum AssetError {
    /// The list holds `MAX_ASSETS` assets or more.
    CapacityExceeded,
    /// An asset refers to an id that no loaded asset has.
    UnknownAssetId { id: String },
}

/// The position of the entry for `k` in `t`, or -1 where there is none.
pub open spec fn index_of(t: Seq<(Seq<char>, nat)>, k: Seq<char>) -> int
    decreases t.len(),
{
    if t.len() == 0 {
        -1
    } else if t.last().0 == k {
        t.len() - 1
    } else {
        index_of(t.drop_last(), k)
    }
}

/// The handle that `t` gives `k`, if any.
pub open spec fn lookup(t: Seq<(Seq<char>, nat)>, k: Seq<char>) -> Option<nat> {
    if index_of(t, k) >= 0 {
        Some(t[index_of(t, k)].1)
    } else {
        None
    }
}

/// `t` with `k` bound to `v`: an earlier entry for `k` is overwritten in place.
pub open spec fn put(t: Seq<(Seq<char>, nat)>, k: Seq<char>, v: nat) -> Seq<(Seq<char>, nat)> {
    if index_of(t, k) >= 0 {
        t.update(index_of(t, k), (k, v))
    } else {
        t.push((k, v))
    }
}

/// The table built from `ids` in order: each id is bound to the size of the
/// table just before it.
pub open spec fn table_of(ids: Seq<Seq<char>>) -> Seq<(Seq<char>, nat)>
    decreases ids.len(),
{
    if ids.len() == 0 {
        Seq::empty()
    } else {
        let t = table_of(ids.drop_last());
        put(t, ids.last(), t.len())
    }
}

pub open spec fn id_views(ids: Seq<String>) -> Seq<Seq<char>> {
    ids.map_values(|s: String| s@)
}

proof fn lemma_index_of(t: Seq<(Seq<char>, nat)>, k: Seq<char>)
    ensures
        -1 <= index_of(t, k) < t.len(),
        index_of(t, k) >= 0 ==> t[index_of(t, k)].0 == k,
        forall|j: int| index_of(t, k) < j < t.len() ==> (#[trigger] t[j]).0 != k,
    decreases t.len(),
{
    if t.len() > 0 && t.last().0 != k {
        lemma_index_of(t.drop_last(), k);
        assert forall|j: int| index_of(t, k) < j < t.len() implies (#[trigger] t[j]).0 != k by {
            if j < t.len() - 1 {
                assert(t[j] == t.drop_last()[j]);
            }
        }
    }
}

proof fn lemma_table_len(ids: Seq<Seq<char>>)
    ensures
        table_of(ids).len() <= ids.len(),
    decreases ids.len(),
{
    if ids.len() > 0 {
        lemma_table_len(ids.drop_last());
        lemma_index_of(table_of(ids.drop_last()), ids.last());
    }
}

/// Asset ids that are pairwise distinct are numbered by their position: the
/// table holds one entry per id, in input order, and the id at position `i`
/// gets the handle `i`.
pub proof fn distinct_ids_numbered_in_order(ids: Seq<Seq<char>>)
    requires
        forall|i: int, j: int| 0 <= i < j < ids.len() ==> ids[i] != ids[j],
    ensures
        table_of(ids).len() == ids.len(),
        forall|i: int| 0 <= i < ids.len() ==> (#[trigger] table_of(ids)[i]) == (ids[i], i as nat),
        forall|i: int| 0 <= i < ids.len() ==> lookup(table_of(ids), #[trigger] ids[i]) == Some(
            i as nat,
        ),
    decreases ids.len(),
{
    if ids.len() > 0 {
        let prev = ids.drop_last();
        distinct_ids_numbered_in_order(prev);
        let t = table_of(prev);
        let k = ids.last();
        lemma_index_of(t, k);
        if index_of(t, k) >= 0 {
            let p = index_of(t, k);
            assert(t[p] == (prev[p], p as nat));
            assert(ids[p] != ids[ids.len() - 1]);
        }
        let u = table_of(ids);
        assert(u == t.push((k, t.len())));
        assert forall|i: int| 0 <= i < ids.len() implies lookup(u, #[trigger] ids[i]) == Some(
            i as nat,
        ) by {
            lemma_index_of(u, ids[i]);
            let p = index_of(u, ids[i]);
            assert(u[i].0 == ids[i]);
            if p < i {
            }
            if p > i {
                assert(u[p].0 == ids[p]);
            }
        }
    }
}

/// Handles for named assets: each id is bound to a small integer.
pub struct IdLookupTable {
    keys: Vec<String>,
    ids: Vec<u8>,
}

impl View for IdLookupTable {
    type V = Seq<(Seq<char>, nat)>;

    closed spec fn view(&self) -> Seq<(Seq<char>, nat)> {
        Seq::new(self.keys@.len(), |i: int| (self.keys@[i]@, self.ids@[i] as nat))
    }
}

impl IdLookupTable {
    /// The table's fields agree in length.
    pub closed spec fn wf(&self) -> bool {
        self.keys@.len() == self.ids@.len()
    }

    /// Fails exactly where a list of `count` assets is too long to number.
    pub fn check_capacity(count: usize) -> (r: Result<(), AssetError>)
        ensures
            r is Ok <==> count < MAX_ASSETS,
            r matches Err(e) ==> e == AssetError::CapacityExceeded,
    {
        if count < MAX_ASSETS {
            Ok(())
        } else {
            Err(AssetError::CapacityExceeded)
        }
    }

    fn position(&self, id: &String) -> (r: Option<usize>)
        requires
            self.wf(),
        ensures
            r is None <==> index_of(self@, id@) == -1,
            r matches Some(p) ==> p == index_of(self@, id@),
    {
        let mut i: usize = self.keys.len();
        assert(self@.subrange(0, i as int) =~= self@);
        while i > 0
            invariant
                self.wf(),
                i <= self.keys@.len(),
                index_of(self@, id@) == index_of(self@.subrange(0, i as int), id@),
            decreases i,
        {
            assert(self@.subrange(0, i as int).drop_last() =~= self@.subrange(0, i - 1));
            if self.keys[i - 1] == *id {
                return Some(i - 1);
            }
            i = i - 1;
        }
        assert(self@.subrange(0, 0) =~= Seq::<(Seq<char>, nat)>::empty());
        None
    }

    /// Binds `id` to the table's current size, over an earlier binding of it.
    fn insert_next(&mut self, id: String)
        requires
            old(self).wf(),
            old(self)@.len() < MAX_ASSETS,
        ensures
            final(self).wf(),
            final(self)@ == put(old(self)@, id@, old(self)@.len()),
    {
        let size = self.keys.len() as u8;
        match self.position(&id) {
            Some(p) => {
                proof {
                    lemma_index_of(self@, id@);
                }
                let ghost key = id@;
                self.keys.set(p, id);
                self.ids.set(p, size);
                assert(self@ =~= put(old(self)@, key, old(self)@.len()));
            },
            None => {
                let ghost key = id@;
                self.keys.push(id);
                self.ids.push(size);
                assert(self@ =~= put(old(self)@, key, old(self)@.len()));
            },
        }
    }

    /// Builds the table from asset ids in order: each id is bound to the number
    /// of entries the table held before it, and a repeated id overwrites its
    /// earlier entry. Fails, before looking at any id, where the list holds
    /// `MAX_ASSETS` ids or more.
    pub fn build(asset_ids: &Vec<String>) -> (r: Result<IdLookupTable, AssetError>)
        ensures
            r is Err <==> asset_ids@.len() >= MAX_ASSETS,
            r matches Err(e) ==> e == AssetError::CapacityExceeded,
            r matches Ok(t) ==> t.wf() && t@ == table_of(id_views(asset_ids@)),
    {
        if asset_ids.len() >= MAX_ASSETS {
            return Err(AssetError::CapacityExceeded);
        }
        let n = asset_ids.len();
        let mut t = IdLookupTable { keys: Vec::new(), ids: Vec::new() };
        let mut i: usize = 0;
        assert(t@ =~= Seq::<(Seq<char>, nat)>::empty());
        assert(id_views(asset_ids@).subrange(0, 0) =~= Seq::<Seq<char>>::empty());
        while i < n
            invariant
                n == asset_ids@.len(),
                n < MAX_ASSETS,
                i <= n,
                t.wf(),
                t@ == table_of(id_views(asset_ids@).subrange(0, i as int)),
            decreases n - i,
        {
            let ghost prefix = id_views(asset_ids@).subrange(0, i + 1);
            assert(prefix.drop_last() =~= id_views(asset_ids@).subrange(0, i as int));
            proof {
                lemma_table_len(id_views(asset_ids@).subrange(0, i as int));
            }
            t.insert_next(asset_ids[i].clone());
            i = i + 1;
        }
        assert(id_views(asset_ids@).subrange(0, n as int) =~= id_views(asset_ids@));
        Ok(t)
    }

    /// The number of entries.
    pub fn len(&self) -> (r: usize)
        requires
            self.wf(),
        ensures
            r == self@.len(),
    {
        self.keys.len()
    }

    /// The handle of `id`, if the table holds it.
    pub fn get(&self, id: &String) -> (r: Option<u8>)
        requires
            self.wf(),
        ensures
            r is None <==> lookup(self@, id@) is None,
            r matches Some(v) ==> lookup(self@, id@) == Some(v as nat),
    {
        proof {
            lemma_index_of(self@, id@);
        }
        match self.position(id) {
            Some(p) => Some(self.ids[p]),
            None => None,
        }
    }
}

} // verus!
