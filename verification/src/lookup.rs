//! Lists of identifiers: where one stands, how often it occurs, how many there are.
use vstd::hash_map::StringHashMap;
use vstd::prelude::*;

use crate::text::lemma_filter_first;

verus! {

/// Where an identifier last stands among the first `n`.
pub open spec fn last_position(ids: Seq<Seq<char>>, id: Seq<char>, n: int) -> Option<int>
    decreases n,
{
    if n <= 0 {
        None
    } else if ids[n - 1] == id {
        Some(n - 1)
    } else {
        last_position(ids, id, n - 1)
    }
}

/// How often an identifier occurs among the first `n`.
pub open spec fn occurrences(ids: Seq<Seq<char>>, id: Seq<char>, n: int) -> nat
    decreases n,
{
    if n <= 0 {
        0
    } else {
        occurrences(ids, id, n - 1) + if ids[n - 1] == id {
            1nat
        } else {
            0nat
        }
    }
}

/// How many different identifiers stand among the first `n`.
pub open spec fn distinct(ids: Seq<Seq<char>>, n: int) -> nat
    decreases n,
{
    if n <= 0 {
        0
    } else {
        distinct(ids, n - 1) + if occurrences(ids, ids[n - 1], n - 1) == 0 {
            1nat
        } else {
            0nat
        }
    }
}

/// A list of identifiers prepared for looking them up.
pub struct Lookup {
    positions: StringHashMap<usize>,
    counts: StringHashMap<usize>,
    different: usize,
    ids: Ghost<Seq<Seq<char>>>,
}

impl Lookup {
    /// The list that was prepared.
    pub closed spec fn ids(&self) -> Seq<Seq<char>> {
        self.ids@
    }

    /// Whether the tables agree with the list.
    pub closed spec fn wf(&self) -> bool {
        tables_agree(
            self.positions@,
            self.counts@,
            self.different,
            self.ids@,
            self.ids@.len() as int,
        )
    }

    /// Prepares a list.
    pub fn new(ids: &Vec<String>) -> (r: Self)
        ensures
            r.wf(),
            r.ids() == ids.deep_view(),
    {
        let ghost view = ids.deep_view();
        let mut positions: StringHashMap<usize> = StringHashMap::new();
        let mut counts: StringHashMap<usize> = StringHashMap::new();
        let mut different: usize = 0;
        for n in 0..ids.len()
            invariant
                view == ids.deep_view(),
                tables_agree(positions@, counts@, different, view, n as int),
                different <= n,
        {
            assert(view[n as int] == ids@[n as int]@);
            let id = &ids[n];
            let count: usize = match counts.get(id.as_str()) {
                Some(k) => *k,
                None => 0,
            };
            proof {
                assert(occurrences(view, id@, n as int) == count);
                lemma_occurrences_bound(view, id@, n as int);
                lemma_tables_step(positions@, counts@, different, view, n as int);
            }
            if count == 0 {
                different += 1;
            }
            counts.insert(id.clone(), count + 1);
            positions.insert(id.clone(), n);
        }
        Lookup { positions, counts, different, ids: Ghost(view) }
    }

    /// Where an identifier last stands.
    pub fn position(&self, id: &str) -> (r: Option<usize>)
        requires
            self.wf(),
        ensures
            match r {
                Some(i) => i < self.ids().len() && last_position(
                    self.ids(),
                    id@,
                    self.ids().len() as int,
                ) == Some(i as int),
                None => last_position(self.ids(), id@, self.ids().len() as int) is None,
            },
    {
        match self.positions.get(id) {
            Some(i) => Some(*i),
            None => None,
        }
    }

    /// How often an identifier occurs.
    pub fn count(&self, id: &str) -> (r: usize)
        requires
            self.wf(),
        ensures
            r == occurrences(self.ids(), id@, self.ids().len() as int),
    {
        match self.counts.get(id) {
            Some(k) => *k,
            None => 0,
        }
    }

    /// How many different identifiers there are.
    pub fn distinct(&self) -> (r: usize)
        requires
            self.wf(),
        ensures
            r == distinct(self.ids(), self.ids().len() as int),
    {
        self.different
    }
}

/// Whether tables agree with the first `n` identifiers of a list.
spec fn tables_agree(
    positions: Map<Seq<char>, usize>,
    counts: Map<Seq<char>, usize>,
    different: usize,
    ids: Seq<Seq<char>>,
    n: int,
) -> bool {
    &&& forall|id: Seq<char>|
        match #[trigger] last_position(ids, id, n) {
            Some(i) => positions.contains_key(id) && positions[id] == i && 0 <= i < ids.len(),
            None => !positions.contains_key(id),
        }
    &&& forall|id: Seq<char>|
        #[trigger] occurrences(ids, id, n) == if counts.contains_key(id) {
            counts[id]
        } else {
            0
        }
    &&& different == distinct(ids, n)
}

proof fn lemma_occurrences_bound(ids: Seq<Seq<char>>, id: Seq<char>, n: int)
    requires
        0 <= n,
    ensures
        occurrences(ids, id, n) <= n,
    decreases n,
{
    if n > 0 {
        lemma_occurrences_bound(ids, id, n - 1);
    }
}

proof fn lemma_tables_step(
    positions: Map<Seq<char>, usize>,
    counts: Map<Seq<char>, usize>,
    different: usize,
    ids: Seq<Seq<char>>,
    n: int,
)
    requires
        0 <= n < ids.len(),
        n <= usize::MAX,
        different < usize::MAX,
        occurrences(ids, ids[n], n) < usize::MAX,
        tables_agree(positions, counts, different, ids, n),
    ensures
        ({
            let id = ids[n];
            let count = occurrences(ids, id, n);
            tables_agree(
                positions.insert(id, n as usize),
                counts.insert(id, (count + 1) as usize),
                if count == 0 {
                    (different + 1) as usize
                } else {
                    different
                },
                ids,
                n + 1,
            )
        }),
{
    let id = ids[n];
    let count = occurrences(ids, id, n);
    let p = positions.insert(id, n as usize);
    let c = counts.insert(id, (count + 1) as usize);
    assert forall|x: Seq<char>|
        match #[trigger] last_position(ids, x, n + 1) {
            Some(i) => p.contains_key(x) && p[x] == i && 0 <= i < ids.len(),
            None => !p.contains_key(x),
        } by {
        let before = last_position(ids, x, n);
        assert(before matches Some(i) ==> positions[x] == i);
    }
    assert forall|x: Seq<char>| #[trigger]
        occurrences(ids, x, n + 1) == if c.contains_key(x) {
            c[x]
        } else {
            0
        } by {
        let before = occurrences(ids, x, n);
        assert(occurrences(ids, x, n + 1) == before + if ids[n] == x {
            1nat
        } else {
            0nat
        });
        assert(before == if counts.contains_key(x) {
            counts[x]
        } else {
            0
        });
    }
}

/// An identifier occurs exactly when it has a position.
pub proof fn lemma_occurs(ids: Seq<Seq<char>>, id: Seq<char>, n: int)
    requires
        0 <= n <= ids.len(),
    ensures
        occurrences(ids, id, n) > 0 <==> last_position(ids, id, n) is Some,
        last_position(ids, id, n) matches Some(i) ==> 0 <= i < n && ids[i] == id,
        occurrences(ids, id, n) > 0 <==> ids.take(n).contains(id),
    decreases n,
{
    if n > 0 {
        lemma_occurs(ids, id, n - 1);
        let before = ids.take(n - 1);
        let after = ids.take(n);
        assert(after =~= before.push(ids[n - 1]));
        if ids[n - 1] == id {
            assert(after[n - 1] == id);
        } else if before.contains(id) {
            let i = choose|i: int| 0 <= i < before.len() && before[i] == id;
            assert(after[i] == id);
        } else if after.contains(id) {
            let i = choose|i: int| 0 <= i < after.len() && after[i] == id;
            assert(before[i] == id);
        }
    }
}

/// An identifier is found where it stands last, and is not found only where it stands nowhere.
pub proof fn law_the_last_position_is_found(ids: Seq<Seq<char>>, id: Seq<char>, n: int)
    requires
        0 <= n <= ids.len(),
    ensures
        match last_position(ids, id, n) {
            Some(i) => 0 <= i < n && ids[i] == id && forall|j: int|
                i < j < n ==> #[trigger] ids[j] != id,
            None => forall|j: int| 0 <= j < n ==> #[trigger] ids[j] != id,
        },
    decreases n,
{
    if n > 0 {
        law_the_last_position_is_found(ids, id, n - 1);
    }
}

/// Identifiers are counted as often as they stand, and different ones once each: an identifier adds
/// to the different ones only where it stands for the first time.
pub proof fn law_identifiers_are_counted(ids: Seq<Seq<char>>, id: Seq<char>, n: int)
    requires
        0 <= n < ids.len(),
    ensures
        occurrences(ids, id, n) == ids.take(n).filter(|other: Seq<char>| other == id).len(),
        distinct(ids, 0) == 0,
        (exists|i: int| 0 <= i < n && #[trigger] ids[i] == ids[n]) ==> distinct(ids, n + 1)
            == distinct(ids, n),
        !(exists|i: int| 0 <= i < n && #[trigger] ids[i] == ids[n]) ==> distinct(ids, n + 1)
            == distinct(ids, n) + 1,
{
    lemma_occurrences_filtered(ids, id, n);
    lemma_occurrences_found(ids, ids[n], n);
}

proof fn lemma_occurrences_filtered(ids: Seq<Seq<char>>, id: Seq<char>, n: int)
    requires
        0 <= n <= ids.len(),
    ensures
        occurrences(ids, id, n) == ids.take(n).filter(|other: Seq<char>| other == id).len(),
    decreases n,
{
    lemma_filter_first(ids, |other: Seq<char>| other == id, n);
    if n > 0 {
        lemma_occurrences_filtered(ids, id, n - 1);
    }
}

proof fn lemma_occurrences_found(ids: Seq<Seq<char>>, id: Seq<char>, n: int)
    requires
        0 <= n <= ids.len(),
    ensures
        occurrences(ids, id, n) > 0 <==> exists|i: int| 0 <= i < n && #[trigger] ids[i] == id,
    decreases n,
{
    if n > 0 {
        lemma_occurrences_found(ids, id, n - 1);
        if ids[n - 1] == id {
            assert(ids[n - 1] == id);
        } else if exists|i: int| 0 <= i < n && #[trigger] ids[i] == id {
            let i = choose|i: int| 0 <= i < n && #[trigger] ids[i] == id;
            assert(0 <= i < n - 1);
        }
    }
}

} // verus!
