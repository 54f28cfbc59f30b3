//! Reconciliation of the bin section with the files on disk ("tidy"): a prune
//! pass that drops records whose file is gone, then a discover pass that adds
//! the entry-point files no record covers. What is on disk comes in as plain
//! values: whether each record's path exists, and the records derived from
//! the files found.
use crate::bin_info::BinInfo;
use crate::error::BinError;
use crate::manifest::{opt_text, Manifest};
use crate::records::{added, any_match, removed, BinRecord};
use vstd::prelude::*;

verus! {

/// A record is stale when its name and path are non-empty strings and its
/// path does not exist.
pub open spec fn is_stale(r: BinRecord, present: bool) -> bool {
    &&& r.0 matches Some(n) && n.len() > 0
    &&& r.1 matches Some(p) && p.len() > 0
    &&& !present
}

/// The `(name, path)` of each stale record, in order; `present[i]` says
/// whether the path of record `i` exists.
pub open spec fn stale_of(recs: Seq<BinRecord>, present: Seq<bool>) -> Seq<(Seq<char>, Seq<char>)>
    decreases recs.len(),
{
    if recs.len() == 0 {
        Seq::empty()
    } else {
        let prev = stale_of(recs.drop_last(), present);
        let r = recs.last();
        if is_stale(r, present[recs.len() - 1]) {
            prev.push((r.0->Some_0, r.1->Some_0))
        } else {
            prev
        }
    }
}

/// The records after one removal per pair, in order.
pub open spec fn remove_each(recs: Seq<BinRecord>, pairs: Seq<(Seq<char>, Seq<char>)>) -> Seq<
    BinRecord,
>
    decreases pairs.len(),
{
    if pairs.len() == 0 {
        recs
    } else {
        removed(remove_each(recs, pairs.drop_last()), pairs.last().0, pairs.last().1)
    }
}

/// The outcome of the discover pass over `found`: each pair is added unless
/// some record already collides with it, and the first add refused ends the
/// pass. On success, the records and, for each pair, whether it was added.
pub open spec fn discovered(recs: Seq<BinRecord>, found: Seq<(Seq<char>, Seq<char>)>) -> Result<
    (Seq<BinRecord>, Seq<bool>),
    BinError,
>
    decreases found.len(),
{
    if found.len() == 0 {
        Ok((recs, Seq::empty()))
    } else {
        match discovered(recs, found.drop_last()) {
            Err(e) => Err(e),
            Ok((cur, flags)) => {
                let (n, p) = found.last();
                if any_match(cur, n, p) {
                    Ok((cur, flags.push(false)))
                } else if n.len() == 0 {
                    Err(BinError::EmptyName)
                } else if p.len() == 0 {
                    Err(BinError::EmptyPath)
                } else {
                    Ok((added(cur, n, p), flags.push(true)))
                }
            },
        }
    }
}

/// The views of `(name, path)` string pairs.
pub open spec fn pairs_view(v: Seq<(String, String)>) -> Seq<(Seq<char>, Seq<char>)> {
    v.map_values(|e: (String, String)| (e.0@, e.1@))
}

/// The `(name, path)` views of derived records.
pub open spec fn infos_view(v: Seq<BinInfo>) -> Seq<(Seq<char>, Seq<char>)> {
    v.map_values(|b: BinInfo| (b.name@, b.path@))
}

/// What a tidy run changed: the `(name, path)` pairs removed as stale, and
/// for each found file whether it was added.
pub struct TidyReport {
    pub removed: Vec<(String, String)>,
    pub added: Vec<bool>,
}

impl Manifest {
    /// Removes, one removal per pair, the stale records; `present[i]` says
    /// whether the path of record `i` exists. Returns the pairs.
    pub fn prune_missing(&mut self, present: &Vec<bool>) -> (r: Vec<(String, String)>)
        requires
            old(self).wf(),
            present@.len() == old(self)@.len(),
        ensures
            final(self).wf(),
            final(self).file_path_view() == old(self).file_path_view(),
            final(self).others() == old(self).others(),
            pairs_view(r@) == stale_of(old(self)@, present@),
            final(self)@ == remove_each(old(self)@, pairs_view(r@)),
    {
        let ghost start = self@;
        let entries = self.bin_entries();
        let mut stale: Vec<(String, String)> = Vec::new();
        let mut i: usize = 0;
        while i < entries.len()
            invariant
                entries@.len() == start.len(),
                present@.len() == start.len(),
                forall|j: int|
                    0 <= j < entries@.len() ==> (opt_text(#[trigger] entries@[j].0), opt_text(
                        entries@[j].1,
                    )) == start[j],
                i <= entries@.len(),
                pairs_view(stale@) == stale_of(start.take(i as int), present@),
            decreases entries@.len() - i,
        {
            assert(start.take(i as int + 1).drop_last() =~= start.take(i as int));
            let (name, path) = &entries[i];
            let ghost r = start[i as int];
            match (name, path) {
                (Some(n), Some(p)) => {
                    if !n.as_str().is_empty() && !p.as_str().is_empty() && !present[i] {
                        stale.push((n.clone(), p.clone()));
                        assert(pairs_view(stale@) =~= stale_of(start.take(i as int), present@).push(
                            (r.0->Some_0, r.1->Some_0),
                        ));
                    }
                },
                _ => {},
            }
            i = i + 1;
        }
        assert(start.take(start.len() as int) =~= start);
        let mut k: usize = 0;
        while k < stale.len()
            invariant
                self.wf(),
                self.file_path_view() == old(self).file_path_view(),
                self.others() == old(self).others(),
                k <= stale@.len(),
                self@ == remove_each(start, pairs_view(stale@).take(k as int)),
            decreases stale@.len() - k,
        {
            let (n, p) = &stale[k];
            self.remove_bin(n.as_str(), p.as_str());
            assert(pairs_view(stale@).take(k as int + 1).drop_last() =~= pairs_view(stale@).take(
                k as int,
            ));
            k = k + 1;
        }
        assert(pairs_view(stale@).take(stale@.len() as int) =~= pairs_view(stale@));
        stale
    }

    /// Adds each found record that no record collides with; stops at the first
    /// add refused. Returns, for each, whether it was added.
    pub fn add_discovered(&mut self, found: &Vec<BinInfo>) -> (r: Result<Vec<bool>, BinError>)
        requires
            old(self).wf(),
        ensures
            final(self).wf(),
            final(self).file_path_view() == old(self).file_path_view(),
            final(self).others() == old(self).others(),
            match discovered(old(self)@, infos_view(found@)) {
                Ok((recs, flags)) => r is Ok && r->Ok_0@ == flags && final(self)@ == recs,
                Err(e) => r == Err::<Vec<bool>, BinError>(e),
            },
    {
        let ghost start = self@;
        let ghost fv = infos_view(found@);
        let mut flags: Vec<bool> = Vec::new();
        let mut i: usize = 0;
        while i < found.len()
            invariant
                self.wf(),
                self.file_path_view() == old(self).file_path_view(),
                self.others() == old(self).others(),
                fv == infos_view(found@),
                start == old(self)@,
                i <= found@.len(),
                discovered(start, fv.take(i as int)) == Ok::<(Seq<BinRecord>, Seq<bool>), BinError>(
                    (self@, flags@),
                ),
            decreases found@.len() - i,
        {
            assert(fv.take(i as int + 1).drop_last() =~= fv.take(i as int));
            let info = &found[i];
            if self.has_bin(info.name.as_str(), info.path.as_str()) {
                flags.push(false);
            } else {
                match self.add_bin(info.name.as_str(), info.path.as_str()) {
                    Ok(()) => flags.push(true),
                    Err(e) => {
                        proof {
                            let prefix = fv.take(i as int + 1);
                            assert(prefix.last() == (info.name@, info.path@));
                            assert(discovered(start, prefix) == Err::<
                                (Seq<BinRecord>, Seq<bool>),
                                BinError,
                            >(e));
                            lemma_discovered_err_stays(start, fv, i as int + 1);
                            assert(discovered(start, fv) == Err::<
                                (Seq<BinRecord>, Seq<bool>),
                                BinError,
                            >(e));
                        }
                        return Err(e);
                    },
                }
            }
            i = i + 1;
        }
        assert(fv.take(found@.len() as int) =~= fv);
        Ok(flags)
    }

    /// Reconciles the bin section with the disk: the prune pass, then the
    /// discover pass.
    pub fn tidy(&mut self, present: &Vec<bool>, found: &Vec<BinInfo>) -> (r: Result<
        TidyReport,
        BinError,
    >)
        requires
            old(self).wf(),
            present@.len() == old(self)@.len(),
        ensures
            final(self).wf(),
            final(self).file_path_view() == old(self).file_path_view(),
            final(self).others() == old(self).others(),
            match discovered(
                remove_each(old(self)@, stale_of(old(self)@, present@)),
                infos_view(found@),
            ) {
                Ok((recs, flags)) => r matches Ok(rep) && final(self)@ == recs && rep.added@ == flags
                    && pairs_view(rep.removed@) == stale_of(old(self)@, present@),
                Err(e) => r matches Err(x) && x == e,
            },
    {
        let removed = self.prune_missing(present);
        match self.add_discovered(found) {
            Ok(added) => Ok(TidyReport { removed, added }),
            Err(e) => Err(e),
        }
    }
}

/// Once the discover pass fails on a prefix, it fails the same way on every
/// longer prefix.
pub proof fn lemma_discovered_err_stays(
    recs: Seq<BinRecord>,
    found: Seq<(Seq<char>, Seq<char>)>,
    k: int,
)
    requires
        0 <= k <= found.len(),
        discovered(recs, found.take(k)) is Err,
    ensures
        discovered(recs, found) == discovered(recs, found.take(k)),
    decreases found.len() - k,
{
    if k < found.len() {
        assert(found.take(k + 1).drop_last() =~= found.take(k));
        lemma_discovered_err_stays(recs, found, k + 1);
    } else {
        assert(found.take(k) =~= found);
    }
}

} // verus!
