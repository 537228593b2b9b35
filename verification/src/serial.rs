//! The on-disk-shaped mirror of the catalog.
//!
//! Here versions are plain text, not parsed values. Parsing the serialized
//! form is all-or-nothing: if any version text is malformed the whole
//! operation fails with the underlying parse error, and no partial catalog
//! is produced. Serializing the in-memory form is total: every version
//! renders to its canonical text, in the catalog's ascending order.
//!
//! A document whose node section is absent deserializes (outside this
//! library) to the default section: no current version and no installed
//! versions — an empty catalog, not an error.

use vstd::prelude::*;

use crate::catalog;
use crate::catalog::{versions_views, sorted_strict, contains_eq, insert_sorted};
use crate::fail::{ErrorDetails, VoltaFail, Fallible};
use crate::version::{
    Version, VersionView, ParseOutcome, parse_spec, version_chars, version_eq,
};

verus! {

/// The serialized catalog, holding one tool family's section.
pub struct Catalog {
    /// The node section.
    pub node: NodeCatalog,
}

/// The serialized node section: version texts as they stand on disk.
pub struct NodeCatalog {
    /// The text of the currently selected version, if one is selected.
    pub current: Option<String>,
    /// The texts of the installed versions: any order, duplicates tolerated.
    pub versions: Vec<String>,
}

impl Default for NodeCatalog {
    /// The section an absent node section stands for: no current version and
    /// no installed versions.
    fn default() -> (r: NodeCatalog)
        ensures
            r.current is None,
            r.versions@.len() == 0,
    {
        NodeCatalog { current: None, versions: Vec::new() }
    }
}

impl NodeCatalog {
    /// The text of the selected version, as a specification-level value.
    pub open spec fn current_text(&self) -> Option<Seq<char>> {
        match self.current {
            Some(s) => Some(s@),
            None => None,
        }
    }

    /// The version texts, as specification-level values.
    pub open spec fn version_texts(&self) -> Seq<Seq<char>> {
        self.versions@.map_values(|s: String| s@)
    }
}

/// Whether a text parses as a semantic version.
pub open spec fn parsed_ok(t: Seq<char>) -> bool {
    parse_spec(t) is Parsed
}

/// The version a text parses to (meaningful only where `parsed_ok` holds).
pub open spec fn parsed_val(t: Seq<char>) -> VersionView {
    parse_spec(t)->Parsed_0
}

/// The first version text the parser rejects, in input order.
pub open spec fn first_rejected_in(ts: Seq<Seq<char>>) -> Option<Seq<char>>
    decreases ts.len(),
{
    if ts.len() == 0 {
        None
    } else if !parsed_ok(ts[0]) {
        Some(ts[0])
    } else {
        first_rejected_in(ts.drop_first())
    }
}

/// The first rejected text of the whole section: the current-version text is
/// examined first, then the version texts in input order.
pub open spec fn first_rejected(current: Option<Seq<char>>, ts: Seq<Seq<char>>) -> Option<
    Seq<char>,
> {
    match current {
        Some(t) => if !parsed_ok(t) {
            Some(t)
        } else {
            first_rejected_in(ts)
        },
        None => first_rejected_in(ts),
    }
}

/// Whether `w` is the parse of the first input text of its precedence class
/// among the first `upto` texts.
pub open spec fn entry_from_first(ts: Seq<Seq<char>>, upto: int, w: VersionView) -> bool {
    exists|j: int|
        0 <= j < upto && #[trigger] parsed_ok(ts[j]) && parsed_val(ts[j]) == w && (forall|j2: int|
            0 <= j2 < j ==> !version_eq(#[trigger] parsed_val(ts[j2]), w))
}

proof fn lemma_first_rejected_in_at(ts: Seq<Seq<char>>, i: int)
    requires
        0 <= i <= ts.len(),
        forall|j: int| 0 <= j < i ==> #[trigger] parsed_ok(ts[j]),
    ensures
        i < ts.len() && !parsed_ok(ts[i]) ==> first_rejected_in(ts) == Some(ts[i]),
        i == ts.len() ==> first_rejected_in(ts) is None,
    decreases ts.len(),
{
    if ts.len() == 0 {
    } else if i == 0 {
        if ts.len() > 0 && parsed_ok(ts[0]) {
            lemma_first_rejected_in_at(ts.drop_first(), 0);
        }
    } else {
        assert(parsed_ok(ts[0]));
        let rest = ts.drop_first();
        assert forall|j: int| 0 <= j < i - 1 implies #[trigger] parsed_ok(rest[j]) by {
            assert(rest[j] == ts[j + 1]);
        }
        lemma_first_rejected_in_at(rest, i - 1);
        if i < ts.len() && !parsed_ok(ts[i]) {
            assert(rest[i - 1] == ts[i]);
        }
    }
}

proof fn lemma_entry_monotone(ts: Seq<Seq<char>>, i: int, i2: int, w: VersionView)
    requires
        entry_from_first(ts, i, w),
        i <= i2,
    ensures
        entry_from_first(ts, i2, w),
{
    let j = choose|j: int|
        0 <= j < i && #[trigger] parsed_ok(ts[j]) && parsed_val(ts[j]) == w && (forall|j2: int|
            0 <= j2 < j ==> !version_eq(#[trigger] parsed_val(ts[j2]), w));
    assert(0 <= j < i2 && parsed_ok(ts[j]) && parsed_val(ts[j]) == w && (forall|j2: int|
        0 <= j2 < j ==> !version_eq(#[trigger] parsed_val(ts[j2]), w)));
}

proof fn lemma_contains_eq_insert(s: Seq<VersionView>, k0: int, v: VersionView, w: VersionView)
    requires
        0 <= k0 <= s.len(),
        contains_eq(s, w),
    ensures
        contains_eq(s.insert(k0, v), w),
{
    let k = choose|k: int| 0 <= k < s.len() && version_eq(s[k], w);
    let s2 = s.insert(k0, v);
    if k < k0 {
        assert(s2[k] == s[k]);
        assert(contains_eq(s2, w));
    } else {
        assert(s2[k + 1] == s[k]);
        assert(contains_eq(s2, w));
    }
}

impl NodeCatalog {
    /// Parses the serialized section into the in-memory catalog.
    ///
    /// All-or-nothing: succeeds exactly when the current-version text (if
    /// present) and every listed version text conform to the grammar. On
    /// success the installed set is the parsed versions, ascending by
    /// precedence, precedence-duplicates collapsed (the first of an equal
    /// pair wins). On failure the error is the version-parse failure of the
    /// first rejected text, and no partial catalog is produced.
    #[verifier::rlimit(50)]
    fn into_node_catalog(self) -> (r: Fallible<catalog::NodeCatalog>)
        ensures
            (match r {
                Ok(n) => {
                    &&& first_rejected(self.current_text(), self.version_texts()) is None
                    &&& n.wf()
                    &&& (match (self.current, n.current) {
                        (None, None) => true,
                        (Some(t), Some(v)) => parsed_ok(t@) && v@ == parsed_val(t@),
                        _ => false,
                    })
                    &&& (forall|j: int|
                        0 <= j < self.version_texts().len() ==> contains_eq(
                            versions_views(n.versions@),
                            parsed_val(#[trigger] self.version_texts()[j]),
                        ))
                    &&& (forall|k: int|
                        0 <= k < n.versions@.len() ==> entry_from_first(
                            self.version_texts(),
                            self.version_texts().len() as int,
                            #[trigger] versions_views(n.versions@)[k],
                        ))
                },
                Err(e) => {
                    &&& e.details is VersionParseError
                    &&& (match first_rejected(self.current_text(), self.version_texts()) {
                        Some(t) => parse_spec(t) == ParseOutcome::Rejected(
                            e.details.spec_message(),
                        ),
                        None => false,
                    })
                    &&& e.cause_messages() == Seq::<Seq<char>>::empty()
                },
            }),
    {
        let ghost ts = self.version_texts();
        let NodeCatalog { current, versions } = self;
        let cur: Option<Version> = match current {
            Some(t) => match Version::parse(t.as_str()) {
                Ok(v) => Some(v),
                Err(e) => {
                    return Err(e);
                },
            },
            None => None,
        };
        let mut out: Vec<Version> = Vec::new();
        let mut i: usize = 0;
        proof {
            assert(versions_views(out@) =~= Seq::<VersionView>::empty());
        }
        while i < versions.len()
            invariant
                i <= versions.len(),
                ts == self.version_texts(),
                versions@ == self.versions@,
                ts.len() == versions@.len(),
                (match (self.current, cur) {
                    (None, None) => true,
                    (Some(t), Some(v)) => parsed_ok(t@) && v@ == parsed_val(t@),
                    _ => false,
                }),
                forall|j: int| 0 <= j < i ==> #[trigger] parsed_ok(ts[j]),
                sorted_strict(versions_views(out@)),
                forall|j: int|
                    0 <= j < i ==> contains_eq(
                        versions_views(out@),
                        parsed_val(#[trigger] ts[j]),
                    ),
                forall|k: int|
                    0 <= k < out@.len() ==> entry_from_first(
                        ts,
                        i as int,
                        #[trigger] versions_views(out@)[k],
                    ),
            decreases versions@.len() - i,
        {
            let ghost old_views = versions_views(out@);
            match Version::parse(versions[i].as_str()) {
                Ok(v) => {
                    proof {
                        assert(ts[i as int] == versions@[i as int]@);
                        assert(parsed_ok(ts[i as int]) && parsed_val(ts[i as int]) == v@);
                    }
                    insert_sorted(&mut out, v);
                    proof {
                        let new_views = versions_views(out@);
                        if contains_eq(old_views, v@) {
                            assert(new_views == old_views);
                        } else {
                            let k0 = choose|k0: int|
                                0 <= k0 <= old_views.len() && new_views == old_views.insert(
                                    k0,
                                    v@,
                                );
                            // Every earlier text's class is still represented.
                            assert forall|j: int| 0 <= j < i + 1 implies contains_eq(
                                new_views,
                                parsed_val(#[trigger] ts[j]),
                            ) by {
                                if j < i {
                                    lemma_contains_eq_insert(
                                        old_views,
                                        k0,
                                        v@,
                                        parsed_val(ts[j]),
                                    );
                                } else {
                                    assert(new_views[k0] == v@);
                                }
                            }
                            // The new entry is the first of its class.
                            assert forall|j2: int| 0 <= j2 < i implies !version_eq(
                                #[trigger] parsed_val(ts[j2]),
                                v@,
                            ) by {
                                if version_eq(parsed_val(ts[j2]), v@) {
                                    let k = choose|k: int|
                                        0 <= k < old_views.len() && version_eq(
                                            old_views[k],
                                            parsed_val(ts[j2]),
                                        );
                                    assert(version_eq(old_views[k], v@));
                                    assert(contains_eq(old_views, v@));
                                }
                            }
                            assert(entry_from_first(ts, i + 1, v@));
                            // Old entries keep their witnesses.
                            assert forall|k: int| 0 <= k < new_views.len() implies entry_from_first(
                                ts,
                                i + 1,
                                #[trigger] new_views[k],
                            ) by {
                                if k < k0 {
                                    assert(new_views[k] == old_views[k]);
                                    lemma_entry_monotone(ts, i as int, i + 1, old_views[k]);
                                } else if k == k0 {
                                } else {
                                    assert(new_views[k] == old_views[k - 1]);
                                    lemma_entry_monotone(ts, i as int, i + 1, old_views[k - 1]);
                                }
                            }
                        }
                        if contains_eq(old_views, v@) {
                            assert forall|k: int| 0 <= k < versions_views(
                                out@,
                            ).len() implies entry_from_first(
                                ts,
                                i + 1,
                                #[trigger] versions_views(out@)[k],
                            ) by {
                                lemma_entry_monotone(
                                    ts,
                                    i as int,
                                    i + 1,
                                    versions_views(out@)[k],
                                );
                            }
                        }
                    }
                },
                Err(e) => {
                    proof {
                        assert(ts[i as int] == versions@[i as int]@);
                        assert(parse_spec(ts[i as int]) == ParseOutcome::Rejected(
                            e.details.spec_message(),
                        ));
                        assert(!parsed_ok(ts[i as int]));
                        lemma_first_rejected_in_at(ts, i as int);
                        assert(first_rejected_in(ts) == Some(ts[i as int]));
                    }
                    return Err(e);
                },
            }
            i = i + 1;
        }
        proof {
            lemma_first_rejected_in_at(ts, ts.len() as int);
        }
        Ok(catalog::NodeCatalog { current: cur, versions: out })
    }
}

impl Catalog {
    /// Parses the serialized catalog into the in-memory model; see
    /// `NodeCatalog::into_node_catalog` for the exact outcome.
    pub fn into_catalog(self) -> (r: Fallible<catalog::Catalog>)
        ensures
            (match r {
                Ok(c) => {
                    &&& first_rejected(self.node.current_text(), self.node.version_texts())
                        is None
                    &&& c.node.wf()
                    &&& (match (self.node.current, c.node.current) {
                        (None, None) => true,
                        (Some(t), Some(v)) => parsed_ok(t@) && v@ == parsed_val(t@),
                        _ => false,
                    })
                    &&& (forall|j: int|
                        0 <= j < self.node.version_texts().len() ==> contains_eq(
                            versions_views(c.node.versions@),
                            parsed_val(#[trigger] self.node.version_texts()[j]),
                        ))
                    &&& (forall|k: int|
                        0 <= k < c.node.versions@.len() ==> entry_from_first(
                            self.node.version_texts(),
                            self.node.version_texts().len() as int,
                            #[trigger] versions_views(c.node.versions@)[k],
                        ))
                },
                Err(e) => {
                    &&& e.details is VersionParseError
                    &&& (match first_rejected(self.node.current_text(), self.node.version_texts()) {
                        Some(t) => parse_spec(t) == ParseOutcome::Rejected(
                            e.details.spec_message(),
                        ),
                        None => false,
                    })
                    &&& e.cause_messages() == Seq::<Seq<char>>::empty()
                },
            }),
    {
        match self.node.into_node_catalog() {
            Ok(n) => Ok(catalog::Catalog { node: n }),
            Err(e) => Err(e),
        }
    }
}

/// How a serialized section mirrors an in-memory catalog: the current
/// version's canonical text, and the canonical text of every installed
/// version, in the catalog's own (ascending) order.
pub open spec fn serial_of_node(n: catalog::NodeCatalog, s: NodeCatalog) -> bool {
    &&& (match (n.current, s.current) {
        (None, None) => true,
        (Some(v), Some(t)) => t@ == version_chars(v@),
        _ => false,
    })
    &&& s.versions@.len() == n.versions@.len()
    &&& (forall|k: int|
        0 <= k < n.versions@.len() ==> #[trigger] s.versions@[k]@ == version_chars(
            n.versions@[k]@,
        ))
}

impl catalog::NodeCatalog {
    /// Renders the catalog back to its serialized form. Total: every version
    /// renders to its canonical text, in the catalog's ascending order.
    pub fn to_serial(&self) -> (r: NodeCatalog)
        ensures
            serial_of_node(*self, r),
    {
        let cur: Option<String> = match &self.current {
            Some(v) => Some(v.text()),
            None => None,
        };
        let mut texts: Vec<String> = Vec::new();
        let mut i: usize = 0;
        while i < self.versions.len()
            invariant
                i <= self.versions@.len(),
                texts@.len() == i,
                forall|k: int|
                    0 <= k < i ==> #[trigger] texts@[k]@ == version_chars(
                        self.versions@[k]@,
                    ),
            decreases self.versions@.len() - i,
        {
            texts.push(self.versions[i].text());
            i = i + 1;
        }
        NodeCatalog { current: cur, versions: texts }
    }
}

impl catalog::Catalog {
    /// Renders the whole catalog back to its serialized form.
    pub fn to_serial(&self) -> (r: Catalog)
        ensures
            serial_of_node(self.node, r.node),
    {
        Catalog { node: self.node.to_serial() }
    }
}

} // verus!
