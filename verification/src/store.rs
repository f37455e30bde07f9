//! The mark store's data: the mapping from site to highwater mark that is
//! read at the start of a run and written back after a successful one.
//! Writes have upsert semantics — a site's existing mark is replaced in
//! place, a new site is inserted, and every other site's mark is preserved.

use vstd::prelude::*;

use crate::model::{HighwaterMark, Site};

verus! {

/// At most one mark per site.
pub open spec fn sites_unique(s: Seq<HighwaterMark>) -> bool {
    forall|p: int, q: int|
        0 <= p < q < s.len() ==> (#[trigger] s[p]).site != (#[trigger] s[q]).site
}

/// The mapping a run of stored marks represents: later entries win.
pub open spec fn map_of(s: Seq<HighwaterMark>) -> Map<Site, HighwaterMark>
    decreases s.len(),
{
    if s.len() == 0 {
        Map::<Site, HighwaterMark>::empty()
    } else {
        map_of(s.drop_last()).insert(s.last().site, s.last())
    }
}

/// The mapping after a batch of marks is written over `m`, first to last.
pub open spec fn apply_marks(m: Map<Site, HighwaterMark>, data: Seq<HighwaterMark>) -> Map<
    Site,
    HighwaterMark,
>
    decreases data.len(),
{
    if data.len() == 0 {
        m
    } else {
        apply_marks(m.insert(data[0].site, data[0]), data.skip(1))
    }
}

/// A site that occurs among the marks is in the mapping, and no other is.
pub proof fn lemma_map_of_contains(s: Seq<HighwaterMark>, site: Site)
    ensures
        map_of(s).contains_key(site) <==> exists|i: int| 0 <= i < s.len() && s[i].site == site,
    decreases s.len(),
{
    if s.len() > 0 {
        lemma_map_of_contains(s.drop_last(), site);
        if s.last().site == site {
            assert(s[s.len() - 1].site == site);
        } else {
            if exists|i: int| 0 <= i < s.len() && s[i].site == site {
                let i = choose|i: int| 0 <= i < s.len() && s[i].site == site;
                assert(s.drop_last()[i].site == site);
            }
            if exists|i: int| 0 <= i < s.drop_last().len() && s.drop_last()[i].site == site {
                let i = choose|i: int|
                    0 <= i < s.drop_last().len() && s.drop_last()[i].site == site;
                assert(s[i].site == site);
            }
        }
    }
}

/// With unique sites, the mapping returns each stored mark at its site.
pub proof fn lemma_map_of_get(s: Seq<HighwaterMark>, i: int)
    requires
        sites_unique(s),
        0 <= i < s.len(),
    ensures
        map_of(s).contains_key(s[i].site),
        map_of(s)[s[i].site] == s[i],
    decreases s.len(),
{
    if i < s.len() - 1 {
        assert(s.drop_last()[i] == s[i]);
        lemma_map_of_get(s.drop_last(), i);
        assert(s[i].site != s.last().site);
    }
}

/// Replacing the mark at a site's slot updates the mapping at that site
/// alone.
pub proof fn lemma_map_of_update(s: Seq<HighwaterMark>, i: int, hw: HighwaterMark)
    requires
        sites_unique(s),
        0 <= i < s.len(),
        s[i].site == hw.site,
    ensures
        map_of(s.update(i, hw)) =~= map_of(s).insert(hw.site, hw),
    decreases s.len(),
{
    if i == s.len() - 1 {
        assert(s.update(i, hw).drop_last() =~= s.drop_last());
        assert(s.update(i, hw).last() == hw);
    } else {
        assert(s.update(i, hw).drop_last() =~= s.drop_last().update(i, hw));
        assert(s.drop_last()[i] == s[i]);
        lemma_map_of_update(s.drop_last(), i, hw);
        assert(s.update(i, hw).last() == s.last());
        assert(s[i].site != s.last().site);
    }
}

/// The persistent mapping from site to highwater mark, as one in-memory
/// document. The entries carry pairwise distinct sites.
#[derive(Clone, Debug, PartialEq)]
pub struct StoredHighwaterData {
    pub data: Vec<HighwaterMark>,
}

impl StoredHighwaterData {
    /// Well-formedness: at most one mark per site.
    pub open spec fn wf(self) -> bool {
        sites_unique(self.data@)
    }

    /// The mapping this document represents.
    pub open spec fn marks(self) -> Map<Site, HighwaterMark> {
        map_of(self.data@)
    }

    /// An empty document: no site has been seen yet.
    pub fn new() -> (s: StoredHighwaterData)
        ensures
            s.wf(),
            s.marks() =~= Map::<Site, HighwaterMark>::empty(),
            s.data@.len() == 0,
    {
        StoredHighwaterData { data: Vec::new() }
    }

    /// Index of the entry for `site`, where one exists.
    fn find(data: &Vec<HighwaterMark>, site: Site) -> (r: Option<usize>)
        ensures
            match r {
                Some(i) => i < data@.len() && data@[i as int].site == site,
                None => forall|j: int| 0 <= j < data@.len() ==> data@[j].site != site,
            },
    {
        let mut idx: usize = 0;
        while idx < data.len()
            invariant
                idx <= data@.len(),
                forall|j: int| 0 <= j < idx ==> data@[j].site != site,
            decreases data@.len() - idx,
        {
            if data[idx].site == site {
                return Some(idx);
            }
            idx += 1;
        }
        None
    }

    /// Write one mark: replace the entry of the mark's site in place, or
    /// insert one where the site has none. Every other site's entry is
    /// untouched.
    pub fn upsert(&mut self, hw: HighwaterMark)
        requires
            old(self).wf(),
        ensures
            final(self).wf(),
            final(self).marks() =~= old(self).marks().insert(hw.site, hw),
    {
        let ghost s0 = self.data@;
        match Self::find(&self.data, hw.site) {
            Some(i) => {
                self.data[i] = hw;
                proof {
                    lemma_map_of_update(s0, i as int, self.data@[i as int]);
                    assert forall|p: int, q: int|
                        0 <= p < q < self.data@.len() implies (#[trigger] self.data@[p]).site != (
                    #[trigger] self.data@[q]).site by {
                        assert(s0[p].site != s0[q].site);
                    }
                }
            },
            None => {
                let ghost hw0 = hw;
                self.data.push(hw);
                proof {
                    assert(self.data@.drop_last() =~= s0);
                    assert(self.data@.last() == hw0);
                    assert forall|p: int, q: int|
                        0 <= p < q < self.data@.len() implies (#[trigger] self.data@[p]).site != (
                    #[trigger] self.data@[q]).site by {
                        if q < s0.len() {
                            assert(s0[p].site != s0[q].site);
                        } else {
                            assert(s0[p].site != hw0.site);
                        }
                    }
                }
            },
        }
    }

    /// Write a batch of marks, first to last, each with upsert semantics.
    pub fn write_data(&mut self, data: Vec<HighwaterMark>)
        requires
            old(self).wf(),
        ensures
            final(self).wf(),
            final(self).marks() =~= apply_marks(old(self).marks(), data@),
    {
        let ghost d = data@;
        let mut rest = data;
        while rest.len() > 0
            invariant
                self.wf(),
                apply_marks(old(self).marks(), d) == apply_marks(self.marks(), rest@),
            decreases rest@.len(),
        {
            let ghost r0 = rest@;
            let hw = rest.remove(0);
            proof {
                assert(r0.remove(0) =~= r0.skip(1));
            }
            self.upsert(hw);
        }
    }

    /// The stored mark for `site`, if any.
    pub fn lookup(&self, site: Site) -> (r: Option<&HighwaterMark>)
        requires
            self.wf(),
        ensures
            match r {
                Some(m) => self.marks().contains_key(site) && *m == self.marks()[site],
                None => !self.marks().contains_key(site),
            },
    {
        let found = Self::find(&self.data, site);
        match found {
            Some(i) => {
                proof {
                    lemma_map_of_get(self.data@, i as int);
                }
                Some(&self.data[i])
            },
            None => {
                proof {
                    lemma_map_of_contains(self.data@, site);
                }
                None
            },
        }
    }
}

/// Store upsert law: writing a mark for one site twice leaves that site
/// mapped to the second mark, and every other site's entry exactly as it
/// was.
pub proof fn lemma_upsert_replaces_and_preserves(
    m: Map<Site, HighwaterMark>,
    first: HighwaterMark,
    second: HighwaterMark,
    other: Site,
)
    requires
        first.site == second.site,
        other != first.site,
    ensures
        ({
            let m2 = apply_marks(apply_marks(m, seq![first]), seq![second]);
            &&& m2.contains_key(first.site)
            &&& m2[first.site] == second
            &&& m2.contains_key(other) <==> m.contains_key(other)
            &&& m.contains_key(other) ==> m2[other] == m[other]
        }),
{
    reveal_with_fuel(apply_marks, 3);
    assert(seq![first][0] == first);
    assert(seq![second][0] == second);
    assert(seq![first].skip(1) =~= Seq::<HighwaterMark>::empty());
    assert(seq![second].skip(1) =~= Seq::<HighwaterMark>::empty());
    assert(apply_marks(m, seq![first]) == m.insert(first.site, first));
    assert(apply_marks(apply_marks(m, seq![first]), seq![second]) == m.insert(
        first.site,
        first,
    ).insert(second.site, second));
}

} // verus!
