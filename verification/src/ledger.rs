//! Scratch collections scoped to one descriptor's processing: the download
//! deduplication ledger and the order-preserving classpath, native and trait
//! sets.

use vstd::prelude::*;

use crate::component::{
    ClasspathEntryModel, ConditionalClasspathEntry, Download, DownloadModel, Native, NativeModel,
    Trait, trait_rank,
};
use crate::coordinate::{CoordModel, GradleSpecifier};

verus! {

/// The first entry under `name`, if any.
pub open spec fn lookup(s: Seq<DownloadModel>, name: CoordModel) -> Option<DownloadModel>
    decreases s.len(),
{
    if s.len() == 0 {
        None
    } else if s.first().name == name {
        Some(s.first())
    } else {
        lookup(s.drop_first(), name)
    }
}

/// At the first index holding `name`, `lookup` finds that entry.
proof fn lemma_lookup_at(s: Seq<DownloadModel>, name: CoordModel, i: int)
    requires
        0 <= i < s.len(),
        s[i].name == name,
        forall|j: int| 0 <= j < i ==> s[j].name != name,
    ensures
        lookup(s, name) == Some(s[i]),
    decreases i,
{
    if i == 0 {
    } else {
        assert(s.drop_first()[i - 1] == s[i]);
        lemma_lookup_at(s.drop_first(), name, i - 1);
    }
}

/// A name occurring nowhere has no entry.
proof fn lemma_lookup_none(s: Seq<DownloadModel>, name: CoordModel)
    requires
        forall|j: int| 0 <= j < s.len() ==> s[j].name != name,
    ensures
        lookup(s, name) is None,
    decreases s.len(),
{
    if s.len() > 0 {
        lemma_lookup_none(s.drop_first(), name);
    }
}

/// Every coordinate occurs at most once in a download list.
pub open spec fn names_unique(s: Seq<DownloadModel>) -> bool {
    forall|i: int, j: int| 0 <= i < j < s.len() ==> s[i].name != s[j].name
}

/// A name with no entry occurs nowhere.
pub proof fn lemma_lookup_none_absent(s: Seq<DownloadModel>, name: CoordModel)
    requires
        lookup(s, name) is None,
    ensures
        forall|j: int| 0 <= j < s.len() ==> s[j].name != name,
    decreases s.len(),
{
    if s.len() > 0 {
        lemma_lookup_none_absent(s.drop_first(), name);
        assert forall|j: int| 0 <= j < s.len() implies s[j].name != name by {
            if j > 0 {
                assert(s.drop_first()[j - 1] == s[j]);
            }
        }
    }
}

/// An ordered, keyed collection of downloads: iteration order is insertion
/// order, every coordinate occurs at most once, and a repeated insertion
/// must agree with the hash already recorded.
pub struct DownloadLedger {
    entries: Vec<Download>,
}

/// A coordinate was claimed with two different hashes: upstream data
/// corruption, reported rather than resolved.
#[derive(Debug)]
pub struct ConsistencyError {
    pub name: GradleSpecifier,
    pub existing: crate::component::Hash,
    pub claimed: crate::component::Hash,
}

/// Model of a consistency error.
pub struct ConsistencyErrModel {
    pub name: CoordModel,
    pub existing: crate::component::HashModel,
    pub claimed: crate::component::HashModel,
}

impl View for ConsistencyError {
    type V = ConsistencyErrModel;

    open spec fn view(&self) -> ConsistencyErrModel {
        ConsistencyErrModel { name: self.name@, existing: self.existing@, claimed: self.claimed@ }
    }
}

impl View for DownloadLedger {
    type V = Seq<DownloadModel>;

    closed spec fn view(&self) -> Seq<DownloadModel> {
        self.entries@.map_values(|d: Download| d@)
    }
}

impl DownloadLedger {
    /// Every coordinate occurs at most once.
    pub open spec fn wf(&self) -> bool {
        names_unique(self@)
    }

    /// An empty ledger.
    pub fn new() -> (r: Self)
        ensures
            r@ == Seq::<DownloadModel>::empty(),
            r.wf(),
    {
        let r = DownloadLedger { entries: Vec::new() };
        proof {
            assert(r@ =~= Seq::<DownloadModel>::empty());
        }
        r
    }

    /// Record a download: a new coordinate is appended, a known coordinate
    /// with the same hash is merged silently, and a known coordinate with a
    /// different hash is a consistency error, the ledger unchanged either
    /// way.
    pub fn insert(&mut self, d: Download) -> (r: Result<(), ConsistencyError>)
        requires
            old(self).wf(),
        ensures
            final(self).wf(),
            match r {
                Ok(()) => match lookup(old(self)@, d@.name) {
                    None => final(self)@ == old(self)@.push(d@),
                    Some(e) => e.hash == d@.hash && final(self)@ == old(self)@,
                },
                Err(ce) => match lookup(old(self)@, d@.name) {
                    Some(e) => e.hash != d@.hash && final(self)@ == old(self)@ && ce@
                        == (ConsistencyErrModel { name: d@.name, existing: e.hash, claimed: d@.hash }),
                    None => false,
                },
            },
    {
        let ghost m = self@;
        let n = self.entries.len();
        let mut i: usize = 0;
        while i < n
            invariant
                n == self.entries@.len(),
                m == self@,
                self@ == old(self)@,
                old(self).wf(),
                m == self.entries@.map_values(|x: Download| x@),
                0 <= i <= n,
                forall|j: int| 0 <= j < i ==> m[j].name != d@.name,
            decreases n - i,
        {
            assert(m[i as int] == self.entries@[i as int]@);
            if self.entries[i].name.key_eq(&d.name) {
                proof {
                    lemma_lookup_at(m, d@.name, i as int);
                }
                if self.entries[i].hash.same(&d.hash) {
                    return Ok(());
                } else {
                    return Err(ConsistencyError {
                        name: d.name,
                        existing: self.entries[i].hash.duplicate(),
                        claimed: d.hash,
                    });
                }
            }
            i = i + 1;
        }
        proof {
            lemma_lookup_none(m, d@.name);
        }
        let ghost dm = d@;
        self.entries.push(d);
        proof {
            assert(self@ =~= m.push(dm));
        }
        Ok(())
    }

    /// The recorded downloads, in insertion order.
    pub fn into_downloads(self) -> (r: Vec<Download>)
        ensures
            r@.map_values(|d: Download| d@) == self@,
    {
        self.entries
    }
}

/// A sequence extended by an element unless it is already present.
pub open spec fn set_insert<T>(s: Seq<T>, x: T) -> Seq<T> {
    if s.contains(x) {
        s
    } else {
        s.push(x)
    }
}

/// An order-preserving set of classpath entries keyed by full structural
/// equality.
pub struct ClasspathSet {
    entries: Vec<ConditionalClasspathEntry>,
}

impl View for ClasspathSet {
    type V = Seq<ClasspathEntryModel>;

    closed spec fn view(&self) -> Seq<ClasspathEntryModel> {
        self.entries@.map_values(|e: ConditionalClasspathEntry| e@)
    }
}

impl ClasspathSet {
    /// An empty set.
    pub fn new() -> (r: Self)
        ensures
            r@ == Seq::<ClasspathEntryModel>::empty(),
    {
        let r = ClasspathSet { entries: Vec::new() };
        proof {
            assert(r@ =~= Seq::<ClasspathEntryModel>::empty());
        }
        r
    }

    /// Add an entry; a duplicate collapses silently.
    pub fn insert(&mut self, e: ConditionalClasspathEntry)
        ensures
            final(self)@ == set_insert(old(self)@, e@),
    {
        let ghost m = self@;
        let ghost em = e@;
        let n = self.entries.len();
        let mut i: usize = 0;
        while i < n
            invariant
                n == self.entries@.len(),
                m == self@,
                self@ == old(self)@,
                m == self.entries@.map_values(|x: ConditionalClasspathEntry| x@),
                em == e@,
                0 <= i <= n,
                forall|j: int| 0 <= j < i ==> m[j] != em,
            decreases n - i,
        {
            assert(m[i as int] == self.entries@[i as int]@);
            if self.entries[i].same(&e) {
                assert(m.contains(em));
                return ;
            }
            i = i + 1;
        }
        assert(!m.contains(em));
        self.entries.push(e);
        proof {
            assert(self@ =~= m.push(em));
        }
    }

    /// The entries, in insertion order.
    pub fn into_entries(self) -> (r: Vec<ConditionalClasspathEntry>)
        ensures
            r@.map_values(|e: ConditionalClasspathEntry| e@) == self@,
    {
        self.entries
    }
}

/// An order-preserving set of native entries keyed by full structural
/// equality.
pub struct NativeSet {
    entries: Vec<Native>,
}

impl View for NativeSet {
    type V = Seq<NativeModel>;

    closed spec fn view(&self) -> Seq<NativeModel> {
        self.entries@.map_values(|e: Native| e@)
    }
}

impl NativeSet {
    /// An empty set.
    pub fn new() -> (r: Self)
        ensures
            r@ == Seq::<NativeModel>::empty(),
    {
        let r = NativeSet { entries: Vec::new() };
        proof {
            assert(r@ =~= Seq::<NativeModel>::empty());
        }
        r
    }

    /// Add an entry; a duplicate collapses silently.
    pub fn insert(&mut self, e: Native)
        ensures
            final(self)@ == set_insert(old(self)@, e@),
    {
        let ghost m = self@;
        let ghost em = e@;
        let n = self.entries.len();
        let mut i: usize = 0;
        while i < n
            invariant
                n == self.entries@.len(),
                m == self@,
                self@ == old(self)@,
                m == self.entries@.map_values(|x: Native| x@),
                em == e@,
                0 <= i <= n,
                forall|j: int| 0 <= j < i ==> m[j] != em,
            decreases n - i,
        {
            assert(m[i as int] == self.entries@[i as int]@);
            if self.entries[i].same(&e) {
                assert(m.contains(em));
                return ;
            }
            i = i + 1;
        }
        assert(!m.contains(em));
        self.entries.push(e);
        proof {
            assert(self@ =~= m.push(em));
        }
    }

    /// The entries, in insertion order.
    pub fn into_entries(self) -> (r: Vec<Native>)
        ensures
            r@.map_values(|e: Native| e@) == self@,
    {
        self.entries
    }
}

/// A trait sequence extended by a trait at its canonical position, unless
/// already present: the result lists each inserted trait once, in canonical
/// order.
pub open spec fn trait_insert(s: Seq<Trait>, t: Trait) -> Seq<Trait>
    decreases s.len(),
{
    if s.len() == 0 {
        seq![t]
    } else if trait_rank(t) < trait_rank(s.first()) {
        seq![t] + s
    } else if trait_rank(t) == trait_rank(s.first()) {
        s
    } else {
        seq![s.first()] + trait_insert(s.drop_first(), t)
    }
}

/// Traits in canonical order without duplicates.
pub open spec fn traits_sorted(s: Seq<Trait>) -> bool {
    forall|i: int, j: int| 0 <= i < j < s.len() ==> trait_rank(s[i]) < trait_rank(s[j])
}

/// An unordered, deduplicated trait set, listed in canonical order.
pub struct TraitSet {
    entries: Vec<Trait>,
}

impl View for TraitSet {
    type V = Seq<Trait>;

    closed spec fn view(&self) -> Seq<Trait> {
        self.entries@
    }
}

impl TraitSet {
    /// The listing stays in canonical order without duplicates.
    pub open spec fn wf(&self) -> bool {
        traits_sorted(self@)
    }

    /// An empty set.
    pub fn new() -> (r: Self)
        ensures
            r@ == Seq::<Trait>::empty(),
            r.wf(),
    {
        TraitSet { entries: Vec::new() }
    }

    /// Add a trait at its canonical position; a duplicate collapses
    /// silently.
    pub fn insert(&mut self, t: Trait)
        requires
            old(self).wf(),
        ensures
            final(self).wf(),
            final(self)@ == trait_insert(old(self)@, t),
    {
        let ghost m = self@;
        let n = self.entries.len();
        let mut i: usize = 0;
        while i < n
            invariant
                n == self.entries@.len(),
                m == self@,
                self@ == old(self)@,
                old(self).wf(),
                traits_sorted(m),
                0 <= i <= n,
                forall|j: int| 0 <= j < i ==> trait_rank(m[j]) < trait_rank(t),
            decreases n - i,
        {
            let r = self.entries[i].rank();
            let tr = t.rank();
            if r == tr {
                proof {
                    lemma_trait_insert_at(m, t, i as int);
                }
                return ;
            }
            if r > tr {
                proof {
                    lemma_trait_insert_at(m, t, i as int);
                }
                self.entries.insert(i, t);
                proof {
                    assert(self@ =~= m.take(i as int) + seq![t] + m.skip(i as int));
                }
                return ;
            }
            i = i + 1;
        }
        proof {
            lemma_trait_insert_at(m, t, n as int);
        }
        self.entries.push(t);
        proof {
            assert(self@ =~= m.take(n as int) + seq![t] + m.skip(n as int));
        }
    }

    /// The traits, in canonical order.
    pub fn into_traits(self) -> (r: Vec<Trait>)
        ensures
            r@ == self@,
    {
        self.entries
    }
}

/// Equal ranks come from the same trait.
proof fn lemma_trait_rank_injective(a: Trait, b: Trait)
    requires
        trait_rank(a) == trait_rank(b),
    ensures
        a == b,
{
}

/// Where the canonical position `k` of a trait in a sorted listing is known,
/// `trait_insert` either finds the trait already there or splices it in at
/// `k`.
proof fn lemma_trait_insert_at(s: Seq<Trait>, t: Trait, k: int)
    requires
        traits_sorted(s),
        0 <= k <= s.len(),
        forall|j: int| 0 <= j < k ==> trait_rank(s[j]) < trait_rank(t),
        k < s.len() ==> trait_rank(s[k]) >= trait_rank(t),
    ensures
        k < s.len() && trait_rank(s[k]) == trait_rank(t) ==> trait_insert(s, t) == s,
        (k == s.len() || trait_rank(s[k]) > trait_rank(t)) ==> trait_insert(s, t) == s.take(k)
            + seq![t] + s.skip(k),
    decreases k,
{
    if k == 0 {
        if s.len() == 0 {
            assert(trait_insert(s, t) =~= s.take(0) + seq![t] + s.skip(0));
        } else if trait_rank(s.first()) == trait_rank(t) {
            lemma_trait_rank_injective(s.first(), t);
        } else {
            assert(trait_rank(t) < trait_rank(s.first()));
            assert(trait_insert(s, t) =~= s.take(0) + seq![t] + s.skip(0));
        }
    } else {
        assert(trait_rank(s.first()) < trait_rank(t));
        let rest = s.drop_first();
        assert(forall|j: int| 0 <= j < k - 1 ==> trait_rank(rest[j]) < trait_rank(t));
        assert(k - 1 < rest.len() ==> trait_rank(rest[k - 1]) >= trait_rank(t));
        lemma_trait_insert_at(rest, t, k - 1);
        if k < s.len() && trait_rank(s[k]) == trait_rank(t) {
            assert(rest[k - 1] == s[k]);
            assert(trait_insert(s, t) =~= s);
        } else {
            assert(trait_insert(s, t) =~= seq![s.first()] + (rest.take(k - 1) + seq![t]
                + rest.skip(k - 1)));
            assert(seq![s.first()] + (rest.take(k - 1) + seq![t] + rest.skip(k - 1)) =~= s.take(k)
                + seq![t] + s.skip(k));
        }
    }
}

} // verus!
