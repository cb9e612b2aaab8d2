//! The in-memory store of configuration records: an ordered collection
//! holding at most one record per id, with create, lookup, filter,
//! remove and update operations. The process-wide lock that serializes
//! access is the caller's concern; every operation here runs to
//! completion on the store it is handed.

use vstd::prelude::*;

use crate::config::Config;
use crate::config::ConfigView;
use crate::config::ConfigUpdateRequest;
use crate::config::UpdateView;
use crate::error::ErrorResponse;
use crate::error::id_detail;
use crate::text::value_matches;
use crate::text::matches_query;

verus! {

/// The models of a sequence of records, in the same order.
pub open spec fn views_of(v: Seq<Config>) -> Seq<ConfigView> {
    v.map_values(|c: Config| c@)
}

/// Whether some record in `s` has the given id.
pub open spec fn has_id(s: Seq<ConfigView>, id: int) -> bool {
    exists|k: int| 0 <= k < s.len() && s[k].id == id
}

/// At most one record per id.
pub open spec fn unique_ids(s: Seq<ConfigView>) -> bool {
    forall|x: int, y: int| 0 <= x < y < s.len() ==> s[x].id != s[y].id
}

/// The predicate that keeps every record whose id differs from `id`.
pub open spec fn keeps(id: int) -> spec_fn(ConfigView) -> bool {
    |cv: ConfigView| cv.id != id
}

/// The predicate that keeps every record whose value matches `query`.
pub open spec fn matches_pred(query: Seq<char>) -> spec_fn(ConfigView) -> bool {
    |cv: ConfigView| value_matches(cv.value, query)
}

/// The record after applying a patch: a present `value` replaces the
/// stored one and nothing else; an absent one leaves the record as it was.
pub open spec fn apply_patch(cv: ConfigView, p: UpdateView) -> ConfigView {
    match p.value {
        Some(v) => ConfigView { id: cv.id, desc: cv.desc, key: cv.key, value: v },
        None => cv,
    }
}

proof fn lemma_filter_all<A>(s: Seq<A>, pred: spec_fn(A) -> bool)
    requires
        forall|k: int| 0 <= k < s.len() ==> pred(s[k]),
    ensures
        s.filter(pred) == s,
    decreases s.len(),
{
    reveal(Seq::filter);
    if s.len() == 0 {
        assert(s.filter(pred) =~= s);
    } else {
        lemma_filter_all(s.drop_last(), pred);
        assert(pred(s.last()));
        assert(s.drop_last().push(s.last()) =~= s);
    }
}

proof fn lemma_filter_shorter<A>(s: Seq<A>, pred: spec_fn(A) -> bool, w: int)
    requires
        0 <= w < s.len(),
        !pred(s[w]),
    ensures
        s.filter(pred).len() < s.len(),
    decreases s.len(),
{
    reveal(Seq::filter);
    if w == s.len() - 1 {
        s.drop_last().lemma_filter_len(pred);
    } else {
        lemma_filter_shorter(s.drop_last(), pred, w);
    }
}

proof fn lemma_filter_in<A>(s: Seq<A>, pred: spec_fn(A) -> bool, k: int)
    requires
        0 <= k < s.filter(pred).len(),
    ensures
        exists|j: int| 0 <= j < s.len() && s[j] == s.filter(pred)[k],
    decreases s.len(),
{
    reveal(Seq::filter);
    if s.len() > 0 {
        let f = s.drop_last().filter(pred);
        if pred(s.last()) && k == f.len() {
            assert(s[s.len() - 1] == s.filter(pred)[k]);
        } else {
            lemma_filter_in(s.drop_last(), pred, k);
            let j = choose|j: int| 0 <= j < s.drop_last().len() && s.drop_last()[j] == f[k];
            assert(s[j] == s.filter(pred)[k]);
        }
    }
}

proof fn lemma_filter_unique(s: Seq<ConfigView>, id: int)
    requires
        unique_ids(s),
    ensures
        unique_ids(s.filter(keeps(id))),
    decreases s.len(),
{
    reveal(Seq::filter);
    if s.len() > 0 {
        let d = s.drop_last();
        assert(unique_ids(d));
        lemma_filter_unique(d, id);
        let f = d.filter(keeps(id));
        if keeps(id)(s.last()) {
            let g = f.push(s.last());
            assert(s.filter(keeps(id)) == g);
            assert forall|x: int, y: int| 0 <= x < y < g.len() implies g[x].id != g[y].id by {
                if y < f.len() {
                    assert(f[x].id != f[y].id);
                } else {
                    lemma_filter_in(d, keeps(id), x);
                    let j = choose|j: int| 0 <= j < d.len() && d[j] == f[x];
                    assert(s[j] == g[x]);
                    assert(s[j].id != s[s.len() - 1].id);
                }
            }
        }
    }
}

/// The shared collection of configuration records, insertion order
/// preserved, at most one record per id.
pub struct ConfigStore {
    configs: Vec<Config>,
}

impl View for ConfigStore {
    type V = Seq<ConfigView>;

    closed spec fn view(&self) -> Seq<ConfigView> {
        views_of(self.configs@)
    }
}

impl ConfigStore {
    /// Well-formed: no two records share an id. Established by `new`
    /// and preserved by every operation.
    pub open spec fn wf(&self) -> bool {
        unique_ids(self@)
    }

    /// An empty store.
    pub fn new() -> (r: ConfigStore)
        ensures
            r@ == Seq::<ConfigView>::empty(),
            r.wf(),
    {
        let r = ConfigStore { configs: Vec::new() };
        proof {
            assert(r@ =~= Seq::<ConfigView>::empty());
        }
        r
    }

    /// A snapshot copy of all records, insertion order preserved.
    #[verifier::loop_isolation(false)]
    pub fn list(&self) -> (r: Vec<Config>)
        ensures
            views_of(r@) == self@,
    {
        let n = self.configs.len();
        let mut out: Vec<Config> = Vec::new();
        let mut i: usize = 0;
        while i < n
            invariant
                n == self.configs.len(),
                i <= n,
                views_of(out@) =~= self@.subrange(0, i as int),
            decreases n - i,
        {
            out.push(self.configs[i].duplicate());
            i += 1;
        }
        proof {
            assert(self@.subrange(0, self@.len() as int) =~= self@);
        }
        out
    }

    /// Append a new record, unless one with its id is already stored:
    /// then the store is unchanged and a `Conflict` names the id.
    #[verifier::loop_isolation(false)]
    pub fn create(&mut self, c: Config) -> (r: Result<Config, ErrorResponse>)
        requires
            old(self).wf(),
        ensures
            final(self).wf(),
            has_id(old(self)@, c@.id) ==> (r matches Err(e) && e matches ErrorResponse::Conflict(
                d,
            ) && d@ == id_detail(c@.id)),
            has_id(old(self)@, c@.id) ==> final(self)@ == old(self)@,
            !has_id(old(self)@, c@.id) ==> (r matches Ok(rc) && rc@ == c@),
            !has_id(old(self)@, c@.id) ==> final(self)@ == old(self)@.push(c@),
    {
        let n = self.configs.len();
        let mut i: usize = 0;
        while i < n
            invariant
                n == self.configs.len(),
                i <= n,
                forall|k: int| 0 <= k < i ==> self@[k].id != c@.id,
            decreases n - i,
        {
            if self.configs[i].id == c.id {
                proof {
                    assert(self@[i as int].id == c@.id);
                    assert(has_id(self@, c@.id));
                }
                return Err(ErrorResponse::conflict(c.id));
            }
            i += 1;
        }
        proof {
            assert(!has_id(self@, c@.id));
        }
        let rc = c.duplicate();
        self.configs.push(c);
        proof {
            let s = old(self)@;
            assert(self@ =~= s.push(rc@));
            assert forall|x: int, y: int| 0 <= x < y < s.push(rc@).len() implies s.push(rc@)[x].id
                != s.push(rc@)[y].id by {
                if y < s.len() {
                    assert(s[x].id != s[y].id);
                } else {
                    assert(s[x].id != rc@.id);
                }
            }
        }
        Ok(rc)
    }

    /// Remove the record with the given id by rebuilding the sequence
    /// without it; an unchanged length means the id was absent and a
    /// `NotFound` names it.
    #[verifier::loop_isolation(false)]
    pub fn delete(&mut self, id: i32) -> (r: Result<(), ErrorResponse>)
        requires
            old(self).wf(),
        ensures
            final(self).wf(),
            !has_id(old(self)@, id as int) ==> (r matches Err(e)
                && e matches ErrorResponse::NotFound(d) && d@ == id_detail(id as int)),
            !has_id(old(self)@, id as int) ==> final(self)@ == old(self)@,
            has_id(old(self)@, id as int) ==> r is Ok,
            has_id(old(self)@, id as int) ==> final(self)@ == old(self)@.filter(keeps(id as int)),
    {
        let n = self.configs.len();
        let mut kept: Vec<Config> = Vec::new();
        let mut i: usize = 0;
        while i < n
            invariant
                n == self.configs.len(),
                i <= n,
                views_of(kept@) == self@.subrange(0, i as int).filter(keeps(id as int)),
            decreases n - i,
        {
            proof {
                reveal(Seq::filter);
                assert(self@.subrange(0, i as int + 1).drop_last() =~= self@.subrange(0, i as int));
                assert(self@.subrange(0, i as int + 1).last() == self@[i as int]);
            }
            if self.configs[i].id != id {
                kept.push(self.configs[i].duplicate());
                proof {
                    assert(views_of(kept@) =~= self@.subrange(0, i as int).filter(
                        keeps(id as int),
                    ).push(self@[i as int]));
                }
            }
            i += 1;
        }
        proof {
            assert(self@.subrange(0, n as int) =~= self@);
        }
        if kept.len() == n {
            proof {
                if has_id(self@, id as int) {
                    let w = choose|k: int| 0 <= k < self@.len() && self@[k].id == id as int;
                    lemma_filter_shorter(self@, keeps(id as int), w);
                }
            }
            Err(ErrorResponse::not_found(id))
        } else {
            proof {
                if !has_id(self@, id as int) {
                    lemma_filter_all(self@, keeps(id as int));
                }
                lemma_filter_unique(old(self)@, id as int);
            }
            self.configs = kept;
            Ok(())
        }
    }

    /// Look up the record with the given id; a `NotFound` names an
    /// absent one.
    #[verifier::loop_isolation(false)]
    pub fn get_by_id(&self, id: i32) -> (r: Result<Config, ErrorResponse>)
        requires
            self.wf(),
        ensures
            !has_id(self@, id as int) ==> (r matches Err(e) && e matches ErrorResponse::NotFound(
                d,
            ) && d@ == id_detail(id as int)),
            has_id(self@, id as int) ==> (r matches Ok(c) && exists|k: int|
                0 <= k < self@.len() && self@[k].id == id as int && c@ == self@[k]),
    {
        let n = self.configs.len();
        let mut i: usize = 0;
        while i < n
            invariant
                n == self.configs.len(),
                i <= n,
                forall|k: int| 0 <= k < i ==> self@[k].id != id as int,
            decreases n - i,
        {
            if self.configs[i].id == id {
                let c = self.configs[i].duplicate();
                proof {
                    assert(self@[i as int].id == id as int && c@ == self@[i as int]);
                }
                return Ok(c);
            }
            i += 1;
        }
        proof {
            assert(!has_id(self@, id as int));
        }
        Err(ErrorResponse::not_found(id))
    }

    /// Apply a patch to the record with the given id: a present `value`
    /// replaces the stored value, an absent one leaves it untouched, and
    /// no other field changes. The `secret` flag has no effect. A
    /// `NotFound` names an absent id.
    #[verifier::loop_isolation(false)]
    pub fn update(&mut self, id: i32, patch: ConfigUpdateRequest) -> (r: Result<
        Config,
        ErrorResponse,
    >)
        requires
            old(self).wf(),
        ensures
            final(self).wf(),
            !has_id(old(self)@, id as int) ==> (r matches Err(e)
                && e matches ErrorResponse::NotFound(d) && d@ == id_detail(id as int)),
            !has_id(old(self)@, id as int) ==> final(self)@ == old(self)@,
            has_id(old(self)@, id as int) ==> r is Ok,
            forall|k: int|
                0 <= k < old(self)@.len() && (#[trigger] old(self)@[k]).id == id as int ==> (
                r matches Ok(c) && c@ == apply_patch(old(self)@[k], patch@) && final(self)@
                    == old(self)@.update(k, c@)),
    {
        let n = self.configs.len();
        let mut i: usize = 0;
        while i < n
            invariant
                *self == *old(self),
                n == self.configs.len(),
                i <= n,
                forall|k: int| 0 <= k < i ==> self@[k].id != id as int,
            decreases n - i,
        {
            if self.configs[i].id == id {
                let ghost s = self@;
                let ghost gi = i as int;
                let cur = self.configs[i].duplicate();
                let updated = match patch.value {
                    Some(v) => Config { id: cur.id, desc: cur.desc, key: cur.key, value: v },
                    None => cur,
                };
                let rc = updated.duplicate();
                self.configs[i] = updated;
                proof {
                    assert(s[gi].id == id as int);
                    assert(rc@ == apply_patch(s[gi], patch@));
                    assert(self@ =~= s.update(gi, rc@));
                    assert forall|x: int, y: int| 0 <= x < y < self@.len() implies self@[x].id
                        != self@[y].id by {
                        assert(self@[x].id == s[x].id && self@[y].id == s[y].id);
                    }
                    assert(0 <= gi < old(self)@.len() && old(self)@[gi].id == id as int && rc@
                        == apply_patch(old(self)@[gi], patch@) && self@ == old(self)@.update(
                        gi,
                        rc@,
                    ));
                    assert forall|k: int|
                        0 <= k < s.len() && s[k].id == id as int implies k == gi by {
                        if k < gi {
                            assert(s[k].id != s[gi].id);
                        } else if k > gi {
                            assert(s[gi].id != s[k].id);
                        }
                    }
                }
                return Ok(rc);
            }
            i += 1;
        }
        proof {
            assert(!has_id(self@, id as int));
        }
        Err(ErrorResponse::not_found(id))
    }

    /// All records whose value contains the query case-insensitively,
    /// insertion order preserved; an empty query matches every record.
    #[verifier::loop_isolation(false)]
    pub fn search(&self, query: &str) -> (r: Vec<Config>)
        ensures
            views_of(r@) == self@.filter(matches_pred(query@)),
            query@.len() == 0 ==> views_of(r@) == self@,
    {
        let n = self.configs.len();
        let mut out: Vec<Config> = Vec::new();
        let mut i: usize = 0;
        while i < n
            invariant
                n == self.configs.len(),
                i <= n,
                views_of(out@) == self@.subrange(0, i as int).filter(matches_pred(query@)),
            decreases n - i,
        {
            proof {
                reveal(Seq::filter);
                assert(self@.subrange(0, i as int + 1).drop_last() =~= self@.subrange(0, i as int));
                assert(self@.subrange(0, i as int + 1).last() == self@[i as int]);
            }
            if matches_query(self.configs[i].value.as_str(), query) {
                out.push(self.configs[i].duplicate());
                proof {
                    assert(views_of(out@) =~= self@.subrange(0, i as int).filter(
                        matches_pred(query@),
                    ).push(self@[i as int]));
                }
            }
            i += 1;
        }
        proof {
            assert(self@.subrange(0, n as int) =~= self@);
            if query@.len() == 0 {
                assert(forall|k: int|
                    0 <= k < self@.len() ==> matches_pred(query@)(#[trigger] self@[k]));
                lemma_filter_all(self@, matches_pred(query@));
            }
        }
        out
    }
}

/// Law: a well-formed store never holds two records with the same id.
/// Every operation requires a well-formed store and leaves one behind,
/// so the property holds across any sequence of calls that starts from
/// `ConfigStore::new`.
pub proof fn lemma_store_uniqueness(s: &ConfigStore, x: int, y: int)
    requires
        s.wf(),
        0 <= x < s@.len(),
        0 <= y < s@.len(),
        x != y,
    ensures
        s@[x].id != s@[y].id,
{
}

/// Law: a patch with an absent `value` leaves the record unchanged, and
/// one with a present `value` replaces exactly that field and no other.
pub proof fn lemma_patch_semantics(cv: ConfigView, p: UpdateView)
    ensures
        p.value is None ==> apply_patch(cv, p) == cv,
        p.value matches Some(v) ==> apply_patch(cv, p) == (ConfigView {
            id: cv.id,
            desc: cv.desc,
            key: cv.key,
            value: v,
        }),
{
}

impl Default for ConfigStore {
    /// An empty store, as `new` builds it.
    fn default() -> (r: ConfigStore)
        ensures
            r@ == Seq::<ConfigView>::empty(),
            r.wf(),
    {
        ConfigStore::new()
    }
}

} // verus!
