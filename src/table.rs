use vstd::prelude::*;

verus! {

/// One row of a [`SymbolTable`]: a symbol and the number stored for it.
pub struct SymbolEntry {
    pub symbol: String,
    pub value: u64,
}

/// A small association list from symbols to non-negative integers, kept in
/// insertion order. Used for positions (symbol to quantity) and for the last
/// observed close of each symbol.
pub struct SymbolTable {
    entries: Vec<SymbolEntry>,
}

/// The rows of a table as (symbol, value) pairs.
pub type Rows = Seq<(Seq<char>, nat)>;

/// Index of the row for `k`, or -1 when there is none.
pub open spec fn find(s: Rows, k: Seq<char>) -> int
    decreases s.len(),
{
    if s.len() == 0 {
        -1
    } else if s.last().0 == k {
        s.len() - 1
    } else {
        find(s.drop_last(), k)
    }
}

/// Whether a row for `k` is present.
pub open spec fn present(s: Rows, k: Seq<char>) -> bool {
    find(s, k) >= 0
}

/// The value stored for `k`, 0 when absent.
pub open spec fn lookup(s: Rows, k: Seq<char>) -> nat {
    if present(s, k) {
        s[find(s, k)].1
    } else {
        0
    }
}

/// The rows after storing `v` for `k`: the row is replaced in place, or
/// appended when `k` was absent.
pub open spec fn assign(s: Rows, k: Seq<char>, v: nat) -> Rows {
    if present(s, k) {
        s.update(find(s, k), (k, v))
    } else {
        s.push((k, v))
    }
}

/// Every stored value is at most `bound`.
pub open spec fn bounded_by(s: Rows, bound: nat) -> bool {
    forall|i: int| 0 <= i < s.len() ==> #[trigger] s[i].1 <= bound
}

/// Every symbol occurs in at most one row.
pub open spec fn keys_unique(s: Rows) -> bool {
    forall|i: int, j: int| 0 <= i < j < s.len() ==> #[trigger] s[i].0 != #[trigger] s[j].0
}

pub proof fn lemma_find_range(s: Rows, k: Seq<char>)
    ensures
        -1 <= find(s, k) < s.len(),
        find(s, k) >= 0 ==> s[find(s, k)].0 == k,
    decreases s.len(),
{
    if s.len() > 0 && s.last().0 != k {
        lemma_find_range(s.drop_last(), k);
    }
}

pub proof fn lemma_find_unique(s: Rows, k: Seq<char>, i: int)
    requires
        keys_unique(s),
        0 <= i < s.len(),
        s[i].0 == k,
    ensures
        find(s, k) == i,
    decreases s.len(),
{
    if i < s.len() - 1 {
        assert(s.last().0 != k) by {
            assert(s[i].0 != s[s.len() - 1].0);
        }
        lemma_find_unique(s.drop_last(), k, i);
    }
}

pub proof fn lemma_lookup_bounded(s: Rows, k: Seq<char>, bound: nat)
    requires
        bounded_by(s, bound),
    ensures
        lookup(s, k) <= bound,
{
    lemma_find_range(s, k);
    if present(s, k) {
        assert(s[find(s, k)].1 <= bound);
    }
}

/// Storing a value keeps the keys unique and the lookups of the other keys.
pub proof fn lemma_assign(s: Rows, k: Seq<char>, v: nat)
    requires
        keys_unique(s),
    ensures
        keys_unique(assign(s, k, v)),
        lookup(assign(s, k, v), k) == v,
        forall|j: Seq<char>| j != k ==> lookup(assign(s, k, v), j) == lookup(s, j),
        assign(s, k, v).len() == s.len() + (if present(s, k) { 0int } else { 1int }),
{
    let t = assign(s, k, v);
    lemma_find_range(s, k);
    if present(s, k) {
        let i = find(s, k);
        assert forall|a: int, b: int| 0 <= a < b < t.len() implies #[trigger] t[a].0 != #[trigger] t[b].0 by {
            assert(s[a].0 != s[b].0);
        }
    } else {
        assert forall|a: int, b: int| 0 <= a < b < t.len() implies #[trigger] t[a].0 != #[trigger] t[b].0 by {
            if b == s.len() {
                if s[a].0 == k {
                    lemma_find_unique(s, k, a);
                }
            } else {
                assert(s[a].0 != s[b].0);
            }
        }
    }
    lemma_find_unique(t, k, find_or_last(s, k));
    assert forall|j: Seq<char>| j != k implies lookup(t, j) == lookup(s, j) by {
        lemma_find_range(s, j);
        lemma_find_range(t, j);
        if present(s, j) {
            let i = find(s, j);
            assert(t[i].0 == j);
            lemma_find_unique(t, j, i);
        } else if present(t, j) {
            let i = find(t, j);
            assert(s[i].0 == j);
            lemma_find_unique(s, j, i);
        }
    }
}

/// Where `assign` leaves the row for `k`.
pub open spec fn find_or_last(s: Rows, k: Seq<char>) -> int {
    if present(s, k) {
        find(s, k)
    } else {
        s.len() as int
    }
}

impl SymbolEntry {
    pub open spec fn view(&self) -> (Seq<char>, nat) {
        (self.symbol@, self.value as nat)
    }
}

impl SymbolTable {
    pub closed spec fn view(&self) -> Rows {
        self.entries@.map_values(|e: SymbolEntry| e.view())
    }

    /// The table's invariant: each symbol has at most one row.
    pub open spec fn wf(&self) -> bool {
        keys_unique(self@)
    }

    pub fn new() -> (r: Self)
        ensures
            r@ == Seq::<(Seq<char>, nat)>::empty(),
            r.wf(),
    {
        SymbolTable { entries: Vec::new() }
    }

    /// Number of rows.
    pub fn len(&self) -> (r: usize)
        ensures
            r == self@.len(),
    {
        self.entries.len()
    }

    /// Position of the row for `symbol`, if any.
    pub fn index_of(&self, symbol: &String) -> (r: Option<usize>)
        ensures
            r is Some <==> present(self@, symbol@),
            r is Some ==> r->0 == find(self@, symbol@) && r->0 < self@.len(),
    {
        proof {
            lemma_find_range(self@, symbol@);
        }
        let mut i: usize = self.entries.len();
        assert(self@.subrange(0, i as int) =~= self@);
        while i > 0
            invariant
                i <= self.entries@.len(),
                find(self@, symbol@) == find(self@.subrange(0, i as int), symbol@),
            decreases i,
        {
            let sub = Ghost(self@.subrange(0, i as int));
            assert(sub@.drop_last() =~= self@.subrange(0, i - 1));
            if self.entries[i - 1].symbol == *symbol {
                return Some(i - 1);
            }
            i = i - 1;
        }
        assert(self@.subrange(0, 0).len() == 0);
        None
    }

    /// Whether `symbol` has a row.
    pub fn contains(&self, symbol: &String) -> (r: bool)
        ensures
            r == present(self@, symbol@),
    {
        self.index_of(symbol).is_some()
    }

    /// The value stored for `symbol`, 0 when absent.
    pub fn get(&self, symbol: &String) -> (r: u64)
        ensures
            r == lookup(self@, symbol@),
    {
        match self.index_of(symbol) {
            Some(i) => self.entries[i].value,
            None => 0,
        }
    }

    /// Stores `value` for `symbol`, replacing its row or appending one.
    pub fn set(&mut self, symbol: &String, value: u64)
        ensures
            final(self)@ == assign(old(self)@, symbol@, value as nat),
    {
        let row = SymbolEntry { symbol: symbol.clone(), value };
        match self.index_of(symbol) {
            Some(i) => {
                self.entries.set(i, row);
                assert(self@ =~= assign(old(self)@, symbol@, value as nat));
            },
            None => {
                self.entries.push(row);
                assert(self@ =~= assign(old(self)@, symbol@, value as nat));
            },
        }
    }

    /// A row-for-row copy.
    pub fn copy(&self) -> (r: Self)
        ensures
            r@ == self@,
    {
        let mut entries: Vec<SymbolEntry> = Vec::new();
        let mut i: usize = 0;
        while i < self.entries.len()
            invariant
                i <= self.entries@.len(),
                entries@.len() == i,
                forall|j: int| 0 <= j < i ==> #[trigger] entries@[j].view() == self@[j],
            decreases self.entries@.len() - i,
        {
            let e = &self.entries[i];
            let row = SymbolEntry { symbol: e.symbol.clone(), value: e.value };
            assert(row.view() == self@[i as int]);
            entries.push(row);
            i = i + 1;
        }
        let r = SymbolTable { entries };
        assert(r@ =~= self@);
        r
    }

    /// The symbol and value of row `i`.
    pub fn entry(&self, i: usize) -> (r: (&String, u64))
        requires
            i < self@.len(),
        ensures
            r.0@ == self@[i as int].0,
            r.1 == self@[i as int].1,
    {
        (&self.entries[i].symbol, self.entries[i].value)
    }
}

} // verus!

verus! {

/// Storing a value within the bound keeps every value within it.
pub proof fn lemma_assign_bounded(s: Rows, k: Seq<char>, v: nat, bound: nat)
    requires
        bounded_by(s, bound),
        v <= bound,
    ensures
        bounded_by(assign(s, k, v), bound),
{
    let t = assign(s, k, v);
    lemma_find_range(s, k);
    assert forall|i: int| 0 <= i < t.len() implies #[trigger] t[i].1 <= bound by {
        if i < s.len() && (!present(s, k) || i != find(s, k)) {
            assert(t[i] == s[i]);
        }
    }
}

} // verus!
