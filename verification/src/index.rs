//! The version index: one entry per processed component, listed by release
//! time in descending order.

use vstd::multiset::Multiset;
use vstd::prelude::*;
use vstd::string::*;

use crate::component::{Component, ComponentDependency, ComponentModel, DependencyModel};

verus! {

/// One line of the index: the version, its release time and its dependency
/// lists.
#[derive(Debug)]
pub struct IndexEntry {
    pub version: String,
    /// Release instant as milliseconds since the Unix epoch.
    pub release_time: i64,
    pub conflicts: Vec<ComponentDependency>,
    pub requires: Vec<ComponentDependency>,
}

/// Model of an index entry.
pub struct IndexEntryModel {
    pub version: Seq<char>,
    pub release_time: i64,
    pub conflicts: Seq<DependencyModel>,
    pub requires: Seq<DependencyModel>,
}

impl View for IndexEntry {
    type V = IndexEntryModel;

    open spec fn view(&self) -> IndexEntryModel {
        IndexEntryModel {
            version: self.version@,
            release_time: self.release_time,
            conflicts: self.conflicts@.map_values(|d: ComponentDependency| d@),
            requires: self.requires@.map_values(|d: ComponentDependency| d@),
        }
    }
}

/// The index entry a component is summarized by.
pub open spec fn spec_entry_of(c: ComponentModel) -> IndexEntryModel {
    IndexEntryModel {
        version: c.version,
        release_time: c.release_time,
        conflicts: c.conflicts,
        requires: c.requires,
    }
}

/// An owned copy of a dependency list.
fn copy_dependencies(v: &Vec<ComponentDependency>) -> (r: Vec<ComponentDependency>)
    ensures
        r@.map_values(|d: ComponentDependency| d@) == v@.map_values(|d: ComponentDependency| d@),
{
    let mut r: Vec<ComponentDependency> = Vec::new();
    let n = v.len();
    let mut i: usize = 0;
    proof {
        assert(r@.map_values(|d: ComponentDependency| d@) =~= v@.take(0).map_values(
            |d: ComponentDependency| d@,
        ));
    }
    while i < n
        invariant
            n == v@.len(),
            0 <= i <= n,
            r@.map_values(|d: ComponentDependency| d@) == v@.take(i as int).map_values(
                |d: ComponentDependency| d@,
            ),
        decreases n - i,
    {
        let ghost prev = r@.map_values(|d: ComponentDependency| d@);
        let d = ComponentDependency {
            id: v[i].id.clone(),
            version: match &v[i].version {
                Some(s) => Some(s.clone()),
                None => None,
            },
        };
        r.push(d);
        proof {
            assert(r@.map_values(|x: ComponentDependency| x@) =~= prev.push(v@[i as int]@));
            assert(v@.take(i as int + 1).map_values(|x: ComponentDependency| x@) =~= v@.take(
                i as int,
            ).map_values(|x: ComponentDependency| x@).push(v@[i as int]@));
        }
        i = i + 1;
    }
    proof {
        assert(v@.take(n as int) =~= v@);
    }
    r
}

impl IndexEntry {
    /// Summarize a component as an index entry.
    pub fn from_component(c: &Component) -> (r: Self)
        ensures
            r@ == spec_entry_of(c@),
    {
        IndexEntry {
            version: c.version.clone(),
            release_time: c.release_time,
            conflicts: copy_dependencies(&c.conflicts),
            requires: copy_dependencies(&c.requires),
        }
    }
}

/// Entries in release-time descending order.
pub open spec fn sorted_desc(s: Seq<IndexEntryModel>) -> bool {
    forall|i: int, j: int| 0 <= i < j < s.len() ==> s[i].release_time >= s[j].release_time
}

/// The models of an entry list.
pub open spec fn entry_models(s: Seq<IndexEntry>) -> Seq<IndexEntryModel> {
    s.map_values(|e: IndexEntry| e@)
}

/// The position of a maximal release time in a non-empty entry list.
fn find_max(entries: &Vec<IndexEntry>) -> (r: usize)
    requires
        entries@.len() > 0,
    ensures
        r < entries@.len(),
        forall|k: int|
            0 <= k < entries@.len() ==> entry_models(entries@)[k].release_time <= entry_models(
                entries@,
            )[r as int].release_time,
{
    let n = entries.len();
    let mut best: usize = 0;
    let mut best_time = entries[0].release_time;
    let mut k: usize = 1;
    while k < n
        invariant
            n == entries@.len(),
            0 < n,
            1 <= k <= n,
            best < k,
            best_time == entry_models(entries@)[best as int].release_time,
            forall|j: int|
                0 <= j < k ==> entry_models(entries@)[j].release_time <= best_time,
        decreases n - k,
    {
        if entries[k].release_time > best_time {
            best = k;
            best_time = entries[k].release_time;
        }
        k = k + 1;
    }
    best
}

/// Sort an entry list by release time, descending: the result holds exactly
/// the given entries, as a multiset, in descending release-time order.
pub fn sort_index(entries: Vec<IndexEntry>) -> (r: Vec<IndexEntry>)
    ensures
        sorted_desc(entry_models(r@)),
        entry_models(r@).to_multiset() == entry_models(entries@).to_multiset(),
        r@.len() == entries@.len(),
{
    broadcast use vstd::seq_lib::group_to_multiset_ensures;

    let ghost orig = entry_models(entries@);
    let mut remaining = entries;
    let mut out: Vec<IndexEntry> = Vec::new();
    proof {
        assert(entry_models(out@) =~= Seq::<IndexEntryModel>::empty());
        assert(entry_models(out@).to_multiset().add(entry_models(remaining@).to_multiset())
            =~= orig.to_multiset());
    }
    while remaining.len() > 0
        invariant
            orig == entry_models(entries@),
            entry_models(out@).to_multiset().add(entry_models(remaining@).to_multiset())
                == orig.to_multiset(),
            out@.len() + remaining@.len() == orig.len(),
            sorted_desc(entry_models(out@)),
            forall|a: int, b: int|
                0 <= a < out@.len() && 0 <= b < remaining@.len() ==> entry_models(
                    out@,
                )[a].release_time >= entry_models(remaining@)[b].release_time,
        decreases remaining.len(),
    {
        let ghost out_m = entry_models(out@);
        let ghost rem_m = entry_models(remaining@);
        let best = find_max(&remaining);
        let x = remaining.remove(best);
        let ghost xm = x@;
        proof {
            broadcast use vstd::seq_lib::group_to_multiset_ensures;

            assert(rem_m[best as int] == xm);
            assert(entry_models(remaining@) =~= rem_m.remove(best as int));
            assert(rem_m.remove(best as int).to_multiset() =~= rem_m.to_multiset().remove(xm));
            assert forall|b: int| 0 <= b < entry_models(remaining@).len() implies entry_models(
                remaining@,
            )[b].release_time <= xm.release_time by {
                if b < best {
                    assert(entry_models(remaining@)[b] == rem_m[b]);
                } else {
                    assert(entry_models(remaining@)[b] == rem_m[b + 1]);
                }
            }
        }
        out.push(x);
        proof {
            broadcast use vstd::seq_lib::group_to_multiset_ensures;

            assert(entry_models(out@) =~= out_m.push(xm));
            assert(out_m.push(xm).to_multiset() =~= out_m.to_multiset().insert(xm));
            assert(entry_models(out@).to_multiset() =~= out_m.to_multiset().insert(xm));
            assert(out_m.to_multiset().insert(xm).add(rem_m.to_multiset().remove(xm))
                =~= out_m.to_multiset().add(rem_m.to_multiset())) by {
                broadcast use vstd::seq_lib::group_to_multiset_ensures;

                assert(rem_m.to_multiset().count(xm) >= 1) by {
                    assert(rem_m.contains(xm));
                }
            }
        }
    }
    proof {
        assert(entry_models(remaining@).to_multiset() =~= Multiset::<IndexEntryModel>::empty());
        assert(entry_models(out@).to_multiset().add(Multiset::<IndexEntryModel>::empty())
            =~= entry_models(out@).to_multiset());
    }
    out
}

/// Build the index of a batch: one entry per component, sorted by release
/// time descending. A batch of N components yields exactly N entries.
pub fn build_index(components: &Vec<Component>) -> (r: Vec<IndexEntry>)
    ensures
        sorted_desc(entry_models(r@)),
        entry_models(r@).to_multiset() == components@.map_values(
            |c: Component| spec_entry_of(c@),
        ).to_multiset(),
        r@.len() == components@.len(),
{
    let mut entries: Vec<IndexEntry> = Vec::new();
    let n = components.len();
    let mut i: usize = 0;
    proof {
        assert(entry_models(entries@) =~= components@.take(0).map_values(
            |c: Component| spec_entry_of(c@),
        ));
    }
    while i < n
        invariant
            n == components@.len(),
            0 <= i <= n,
            entry_models(entries@) == components@.take(i as int).map_values(
                |c: Component| spec_entry_of(c@),
            ),
        decreases n - i,
    {
        let ghost prev = entry_models(entries@);
        entries.push(IndexEntry::from_component(&components[i]));
        proof {
            assert(entry_models(entries@) =~= prev.push(spec_entry_of(components@[i as int]@)));
            assert(components@.take(i as int + 1).map_values(|c: Component| spec_entry_of(c@))
                =~= components@.take(i as int).map_values(|c: Component| spec_entry_of(c@)).push(
                spec_entry_of(components@[i as int]@),
            ));
        }
        i = i + 1;
    }
    proof {
        assert(components@.take(n as int) =~= components@);
    }
    sort_index(entries)
}

/// In an index without ties, descending order is strict: any entry listed
/// earlier was released strictly later.
pub proof fn lemma_sorted_strictly_desc(s: Seq<IndexEntryModel>)
    requires
        sorted_desc(s),
        forall|i: int, j: int|
            0 <= i < j < s.len() ==> s[i].release_time != s[j].release_time,
    ensures
        forall|i: int, j: int| 0 <= i < j < s.len() ==> s[i].release_time > s[j].release_time,
{
}

} // verus!
