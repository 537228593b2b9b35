//! The in-memory catalog of installed tool versions.
//!
//! A [`NodeCatalog`] holds the currently selected default version, if any,
//! and the installed versions as an ordered, deduplicated set: strictly
//! ascending by semantic-version precedence, so no two listed versions are
//! precedence-equal. The selected default need not be listed among the
//! installed versions; the model deliberately does not enforce that.

use vstd::prelude::*;

use crate::version::{
    Version, VersionView, version_lt, version_eq, lemma_version_lt_asym, lemma_version_lt_conn,
    lemma_version_lt_trans,
};

verus! {

/// The mathematical values of a list of versions.
pub open spec fn versions_views(vs: Seq<Version>) -> Seq<VersionView> {
    vs.map_values(|v: Version| v@)
}

/// Strictly ascending by precedence; in particular, no two elements are
/// precedence-equal.
pub open spec fn sorted_strict(s: Seq<VersionView>) -> bool {
    forall|i: int, j: int| 0 <= i < j < s.len() ==> version_lt(s[i], s[j])
}

/// Whether some element of `s` is precedence-equal to `w`.
pub open spec fn contains_eq(s: Seq<VersionView>, w: VersionView) -> bool {
    exists|k: int| 0 <= k < s.len() && version_eq(s[k], w)
}

/// The catalog for one tool family: the selected default and the installed
/// set.
pub struct NodeCatalog {
    /// The version currently selected as the default, if any.
    pub current: Option<Version>,
    /// The installed versions, ascending by precedence, no duplicates.
    pub versions: Vec<Version>,
}

/// The catalog of installed tool versions, holding one tool family.
pub struct Catalog {
    /// The catalog of the node tool family.
    pub node: NodeCatalog,
}

impl NodeCatalog {
    /// Well-formedness: the installed set is strictly ascending.
    pub open spec fn wf(&self) -> bool {
        sorted_strict(versions_views(self.versions@))
    }
}

impl Catalog {
    /// Well-formedness of the contained catalog.
    pub open spec fn wf(&self) -> bool {
        self.node.wf()
    }
}

/// Law: a precedence-equal pair is indistinguishable to the strict order.
pub proof fn lemma_version_eq_not_lt(a: VersionView, b: VersionView)
    requires
        version_eq(a, b),
    ensures
        !version_lt(a, b),
        !version_lt(b, a),
{
    if version_lt(a, b) {
        lemma_version_lt_asym(a, b);
        assert(version_lt(b, a) == version_lt(a, b)) by {
            assert(a.pre =~= b.pre);
        }
    }
    if version_lt(b, a) {
        lemma_version_lt_asym(b, a);
        assert(version_lt(b, a) == version_lt(a, b)) by {
            assert(a.pre =~= b.pre);
        }
    }
}

/// Law: in a well-formed catalog the installed versions are strictly
/// ascending by precedence and no two of them are precedence-equal — so the
/// serialized versions array, which keeps this order, lists each distinct
/// installed version exactly once, ascending.
pub proof fn lemma_versions_normalized(n: NodeCatalog)
    requires
        n.wf(),
    ensures
        forall|p: int, q: int|
            0 <= p < q < n.versions@.len() ==> version_lt(
                #[trigger] versions_views(n.versions@)[p],
                #[trigger] versions_views(n.versions@)[q],
            ),
        forall|p: int, q: int|
            0 <= p < q < n.versions@.len() ==> !version_eq(
                #[trigger] versions_views(n.versions@)[p],
                #[trigger] versions_views(n.versions@)[q],
            ),
{
    assert forall|p: int, q: int| 0 <= p < q < n.versions@.len() implies !version_eq(
        #[trigger] versions_views(n.versions@)[p],
        #[trigger] versions_views(n.versions@)[q],
    ) by {
        if version_eq(versions_views(n.versions@)[p], versions_views(n.versions@)[q]) {
            lemma_version_eq_not_lt(versions_views(n.versions@)[p], versions_views(n.versions@)[q]);
        }
    }
}

/// The index of the first listed version not below `v`, by linear scan.
fn lower_bound(vs: &Vec<Version>, v: &Version) -> (i: usize)
    ensures
        i <= vs@.len(),
        forall|k: int| 0 <= k < i ==> version_lt(#[trigger] versions_views(vs@)[k], v@),
        i < vs@.len() ==> !version_lt(versions_views(vs@)[i as int], v@),
{
    let mut i: usize = 0;
    while i < vs.len()
        invariant
            i <= vs@.len(),
            forall|k: int| 0 <= k < i ==> version_lt(#[trigger] versions_views(vs@)[k], v@),
        decreases vs@.len() - i,
    {
        if !vs[i].lt(v) {
            return i;
        }
        i = i + 1;
    }
    i
}

/// Inserts `v` into the ascending list `vs`, keeping it ascending. A version
/// precedence-equal to a listed one is dropped: the listed one stays, so the
/// first of an equal pair to arrive wins.
pub fn insert_sorted(vs: &mut Vec<Version>, v: Version)
    requires
        sorted_strict(versions_views(old(vs)@)),
    ensures
        sorted_strict(versions_views(final(vs)@)),
        contains_eq(versions_views(old(vs)@), v@) ==> final(vs)@ == old(vs)@,
        !contains_eq(versions_views(old(vs)@), v@) ==> exists|k: int|
            0 <= k <= old(vs)@.len() && versions_views(final(vs)@) == versions_views(
                old(vs)@,
            ).insert(k, v@),
{
    let ghost ws = versions_views(vs@);
    let i = lower_bound(vs, &v);
    if i < vs.len() && !v.lt(&vs[i]) {
        proof {
            lemma_version_lt_conn(ws[i as int], v@);
            assert(contains_eq(ws, v@));
        }
    } else {
        proof {
            assert forall|k: int| 0 <= k < ws.len() implies !version_eq(ws[k], v@) by {
                if k < i {
                    if version_eq(ws[k], v@) {
                        lemma_version_eq_not_lt(ws[k], v@);
                    }
                } else {
                    assert(i < ws.len() && version_lt(v@, ws[i as int]));
                    if k > i {
                        lemma_version_lt_trans(v@, ws[i as int], ws[k]);
                    }
                    if version_eq(ws[k], v@) {
                        lemma_version_eq_not_lt(ws[k], v@);
                    }
                }
            }
            assert(!contains_eq(ws, v@));
        }
        vs.insert(i, v);
        proof {
            let ws2 = versions_views(vs@);
            assert(ws2 =~= ws.insert(i as int, v@));
            assert forall|p: int, q: int| 0 <= p < q < ws2.len() implies version_lt(
                ws2[p],
                ws2[q],
            ) by {
                let iv = i as int;
                if p < iv && q == iv {
                } else if p < iv && q > iv {
                } else if p == iv && q > iv {
                    if q - 1 > iv {
                        lemma_version_lt_trans(v@, ws[iv], ws[q - 1]);
                    }
                } else {
                }
            }
            assert(sorted_strict(ws2));
        }
    }
}

} // verus!
