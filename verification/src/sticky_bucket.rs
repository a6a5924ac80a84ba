use vstd::prelude::*;

verus! {

use crate::json::spec_canon;
use crate::model_public::GrowthBookAttribute;
use crate::text::str_eq;
use vstd::string::StringExecFns;

/// The model of one assignment document: experiment keys bound to
/// variation indices, in order, the first binding of a key the one
/// that counts.
pub type AssignDoc = Seq<(Seq<char>, Seq<char>)>;

/// The model of a whole store: documents keyed by an attribute name
/// and value pair.
pub type StickyModel = Seq<((Seq<char>, Seq<char>), AssignDoc)>;

/// The model of an assignment list.
pub open spec fn spec_assign_view(v: Seq<(String, String)>) -> AssignDoc {
    Seq::new(v.len(), |i: int| (v[i].0@, v[i].1@))
}

/// The first value bound to `key` in a document.
pub open spec fn spec_doc_lookup(doc: AssignDoc, key: Seq<char>) -> Option<Seq<char>>
    decreases doc.len(),
{
    if doc.len() == 0 {
        None
    } else if doc[0].0 == key {
        Some(doc[0].1)
    } else {
        spec_doc_lookup(doc.skip(1), key)
    }
}

/// The document with `key` bound to `val`: an existing binding is
/// replaced in place, a new one goes at the end.
pub open spec fn spec_doc_put(doc: AssignDoc, key: Seq<char>, val: Seq<char>) -> AssignDoc
    decreases doc.len(),
{
    if doc.len() == 0 {
        seq![(key, val)]
    } else if doc[0].0 == key {
        seq![(key, val)] + doc.skip(1)
    } else {
        seq![doc[0]] + spec_doc_put(doc.skip(1), key, val)
    }
}

/// The document with every binding of `adds` put in, left to right,
/// existing unrelated bindings kept.
pub open spec fn spec_doc_merge(doc: AssignDoc, adds: AssignDoc) -> AssignDoc
    decreases adds.len(),
{
    if adds.len() == 0 {
        doc
    } else {
        spec_doc_merge(spec_doc_put(doc, adds[0].0, adds[0].1), adds.skip(1))
    }
}

/// The document stored for an attribute name and value, if any.
pub open spec fn spec_store_lookup(m: StickyModel, name: Seq<char>, value: Seq<char>) -> Option<
    AssignDoc,
>
    decreases m.len(),
{
    if m.len() == 0 {
        None
    } else if m[0].0 == (name, value) {
        Some(m[0].1)
    } else {
        spec_store_lookup(m.skip(1), name, value)
    }
}

/// The store after a save: the document for the attribute name and
/// value, new if absent, with the additions merged in.
pub open spec fn spec_store_save(
    m: StickyModel,
    name: Seq<char>,
    value: Seq<char>,
    adds: AssignDoc,
) -> StickyModel
    decreases m.len(),
{
    if m.len() == 0 {
        seq![((name, value), spec_doc_merge(Seq::empty(), adds))]
    } else if m[0].0 == (name, value) {
        seq![((name, value), spec_doc_merge(m[0].1, adds))] + m.skip(1)
    } else {
        seq![m[0]] + spec_store_save(m.skip(1), name, value, adds)
    }
}

/// The flat merge of the documents of all the given attributes, in
/// order; an attribute whose value has no canonical text contributes
/// nothing.
pub open spec fn spec_all_assignments(
    m: StickyModel,
    attrs: Seq<GrowthBookAttribute>,
    acc: AssignDoc,
) -> AssignDoc
    decreases attrs.len(),
{
    if attrs.len() == 0 {
        acc
    } else {
        let next = match spec_canon(attrs[0].value@) {
            Some(value) => match spec_store_lookup(m, attrs[0].name@, value) {
                Some(doc) => spec_doc_merge(acc, doc),
                None => acc,
            },
            None => acc,
        };
        spec_all_assignments(m, attrs.skip(1), next)
    }
}

/// A pluggable persistence store for sticky experiment assignments.
/// A save merges additively: bindings the save does not name are kept.
pub trait StickyBucketService {
    /// The store's contents.
    spec fn model(&self) -> StickyModel;

    /// The assignments stored for an attribute name and value, if any.
    fn get_assignments(&self, attribute_name: &str, attribute_value: &str) -> (r: Option<
        Vec<(String, String)>,
    >)
        ensures
            match spec_store_lookup(self.model(), attribute_name@, attribute_value@) {
                Some(doc) => r is Some && spec_assign_view(r->Some_0@) == doc,
                None => r is None,
            },
    ;

    /// Merges the given assignments into the document for an
    /// attribute name and value.
    fn save_assignments(
        &mut self,
        attribute_name: &str,
        attribute_value: &str,
        assignments: Vec<(String, String)>,
    )
        ensures
            final(self).model() == spec_store_save(
                old(self).model(),
                attribute_name@,
                attribute_value@,
                spec_assign_view(assignments@),
            ),
    ;

    /// The flat merge of the documents of all the given attributes.
    fn get_all_assignments(&self, attributes: &Vec<GrowthBookAttribute>) -> (r: Vec<
        (String, String),
    >)
        ensures
            spec_assign_view(r@) == spec_all_assignments(self.model(), attributes@, Seq::empty()),
    ;
}

/// One stored document: an attribute name and value, and the
/// assignments saved under them.
#[derive(Debug)]
pub struct StickyEntry {
    pub attribute_name: String,
    pub attribute_value: String,
    pub assignments: Vec<(String, String)>,
}

/// An in-memory sticky bucket store.
#[derive(Debug)]
pub struct InMemoryStickyBucketService {
    pub entries: Vec<StickyEntry>,
}

/// The model of the in-memory store's entries.
pub open spec fn spec_entries_view(es: Seq<StickyEntry>) -> StickyModel {
    Seq::new(
        es.len(),
        |i: int| ((es[i].attribute_name@, es[i].attribute_value@), spec_assign_view(
            es[i].assignments@,
        )),
    )
}

impl InMemoryStickyBucketService {
    /// An empty store.
    pub fn new() -> (r: InMemoryStickyBucketService)
        ensures
            r.model() == Seq::<((Seq<char>, Seq<char>), AssignDoc)>::empty(),
    {
        let r = InMemoryStickyBucketService { entries: Vec::new() };
        proof {
            assert(r.model() =~= Seq::<((Seq<char>, Seq<char>), AssignDoc)>::empty());
        }
        r
    }

    /// The combined key under which a document is filed.
    pub fn get_key(&self, attribute_name: &str, attribute_value: &str) -> (r: String)
        ensures
            r@ == attribute_name@ + "||"@ + attribute_value@,
    {
        let mut s = String::from_str(attribute_name);
        s.append("||");
        s.append(attribute_value);
        s
    }
}

/// A copy of an assignment list.
#[verifier::loop_isolation(false)]
pub fn clone_assignments(v: &Vec<(String, String)>) -> (r: Vec<(String, String)>)
    ensures
        spec_assign_view(r@) == spec_assign_view(v@),
{
    let mut out: Vec<(String, String)> = Vec::new();
    let mut i: usize = 0;
    while i < v.len()
        invariant
            i <= v@.len(),
            out@.len() == i,
            forall|k: int|
                0 <= k < i ==> (#[trigger] out@[k]).0@ == v@[k].0@ && out@[k].1@ == v@[k].1@,
        decreases v@.len() - i,
    {
        out.push((v[i].0.clone(), v[i].1.clone()));
        i += 1;
    }
    proof {
        assert(spec_assign_view(out@) =~= spec_assign_view(v@));
    }
    out
}

impl StickyBucketService for InMemoryStickyBucketService {
    open spec fn model(&self) -> StickyModel {
        spec_entries_view(self.entries@)
    }

    #[verifier::loop_isolation(false)]
    fn get_assignments(&self, attribute_name: &str, attribute_value: &str) -> (r: Option<
        Vec<(String, String)>,
    >) {
        let ghost m = self.model();
        proof {
            assert(m.skip(0) =~= m);
        }
        let mut i: usize = 0;
        while i < self.entries.len()
            invariant
                i <= self.entries@.len(),
                m.len() == self.entries@.len(),
                spec_store_lookup(m, attribute_name@, attribute_value@) == spec_store_lookup(
                    m.skip(i as int),
                    attribute_name@,
                    attribute_value@,
                ),
            decreases self.entries@.len() - i,
        {
            proof {
                assert(m.skip(i as int)[0] == m[i as int]);
                assert(m.skip(i as int).skip(1) =~= m.skip(i as int + 1));
            }
            if str_eq(self.entries[i].attribute_name.as_str(), attribute_name) && str_eq(
                self.entries[i].attribute_value.as_str(),
                attribute_value,
            ) {
                return Some(clone_assignments(&self.entries[i].assignments));
            }
            i += 1;
        }
        proof {
            assert(m.skip(self.entries@.len() as int) =~= Seq::<
                ((Seq<char>, Seq<char>), AssignDoc),
            >::empty());
        }
        None
    }

    #[verifier::loop_isolation(false)]
    fn save_assignments(
        &mut self,
        attribute_name: &str,
        attribute_value: &str,
        assignments: Vec<(String, String)>,
    ) {
        let ghost m0 = old(self).model();
        let ghost adds = spec_assign_view(assignments@);
        proof {
            assert(m0.skip(0) =~= m0);
        }
        let mut i: usize = 0;
        while i < self.entries.len()
            invariant
                i <= self.entries@.len(),
                self.entries@.len() == m0.len(),
                self.model() == m0,
                spec_assign_view(assignments@) == adds,
                spec_store_save(m0, attribute_name@, attribute_value@, adds) == spec_store_save_at(
                    m0,
                    attribute_name@,
                    attribute_value@,
                    adds,
                    i as int,
                ),
                forall|k: int| 0 <= k < i ==> #[trigger] m0[k].0 != (attribute_name@, attribute_value@),
            decreases self.entries@.len() - i,
        {
            if str_eq(self.entries[i].attribute_name.as_str(), attribute_name) && str_eq(
                self.entries[i].attribute_value.as_str(),
                attribute_value,
            ) {
                let merged = merge_assignments(&self.entries[i].assignments, &assignments);
                let name_c = self.entries[i].attribute_name.clone();
                let value_c = self.entries[i].attribute_value.clone();
                self.entries.set(
                    i,
                    StickyEntry {
                        attribute_name: name_c,
                        attribute_value: value_c,
                        assignments: merged,
                    },
                );
                proof {
                    lemma_store_save_found(m0, attribute_name@, attribute_value@, adds, i as int);
                    assert(self.model() =~= spec_store_save(
                        m0,
                        attribute_name@,
                        attribute_value@,
                        adds,
                    ));
                }
                return ;
            }
            proof {
                lemma_store_save_step(m0, attribute_name@, attribute_value@, adds, i as int);
            }
            i += 1;
        }
        let empty_doc: Vec<(String, String)> = Vec::new();
        let merged = merge_assignments(&empty_doc, &assignments);
        proof {
            assert(spec_assign_view(empty_doc@) =~= Seq::<(Seq<char>, Seq<char>)>::empty());
        }
        self.entries.push(
            StickyEntry {
                attribute_name: String::from_str(attribute_name),
                attribute_value: String::from_str(attribute_value),
                assignments: merged,
            },
        );
        proof {
            lemma_store_save_end(m0, attribute_name@, attribute_value@, adds);
            assert(self.model() =~= spec_store_save(m0, attribute_name@, attribute_value@, adds));
        }
    }

    #[verifier::loop_isolation(false)]
    fn get_all_assignments(&self, attributes: &Vec<GrowthBookAttribute>) -> (r: Vec<
        (String, String),
    >) {
        let ghost m = self.model();
        let mut acc: Vec<(String, String)> = Vec::new();
        proof {
            assert(attributes@.skip(0) =~= attributes@);
            assert(spec_assign_view(acc@) =~= Seq::<(Seq<char>, Seq<char>)>::empty());
        }
        let mut i: usize = 0;
        while i < attributes.len()
            invariant
                i <= attributes@.len(),
                self.model() == m,
                spec_all_assignments(m, attributes@, Seq::empty()) == spec_all_assignments(
                    m,
                    attributes@.skip(i as int),
                    spec_assign_view(acc@),
                ),
            decreases attributes@.len() - i,
        {
            proof {
                assert(attributes@.skip(i as int)[0] == attributes@[i as int]);
                assert(attributes@.skip(i as int).skip(1) =~= attributes@.skip(i as int + 1));
            }
            match attributes[i].value.to_canon_string() {
                Some(value) => {
                    match self.get_assignments(attributes[i].name.as_str(), value.as_str()) {
                        Some(doc) => {
                            acc = merge_assignments(&acc, &doc);
                        },
                        None => {},
                    }
                },
                None => {},
            }
            i += 1;
        }
        proof {
            assert(attributes@.skip(attributes@.len() as int) =~= Seq::<
                GrowthBookAttribute,
            >::empty());
        }
        acc
    }
}

/// What remains of a save that has walked past the first `i` entries
/// without finding its document.
pub open spec fn spec_store_save_at(
    m: StickyModel,
    name: Seq<char>,
    value: Seq<char>,
    adds: AssignDoc,
    i: int,
) -> StickyModel {
    m.take(i) + spec_store_save(m.skip(i), name, value, adds)
}

/// Walking one entry forward keeps the save's meaning.
proof fn lemma_store_save_step(
    m: StickyModel,
    name: Seq<char>,
    value: Seq<char>,
    adds: AssignDoc,
    i: int,
)
    requires
        0 <= i < m.len(),
        m[i].0 != (name, value),
    ensures
        spec_store_save_at(m, name, value, adds, i) == spec_store_save_at(
            m,
            name,
            value,
            adds,
            i + 1,
        ),
{
    assert(m.skip(i)[0] == m[i]);
    assert(m.skip(i).skip(1) =~= m.skip(i + 1));
    assert(spec_store_save(m.skip(i), name, value, adds) == seq![m[i]] + spec_store_save(
        m.skip(i + 1),
        name,
        value,
        adds,
    ));
    assert(m.take(i) + (seq![m[i]] + spec_store_save(m.skip(i + 1), name, value, adds)) =~= m.take(
        i + 1,
    ) + spec_store_save(m.skip(i + 1), name, value, adds));
}

/// A save that finds its document at position `i` replaces it there
/// with the merged one.
proof fn lemma_store_save_found(
    m: StickyModel,
    name: Seq<char>,
    value: Seq<char>,
    adds: AssignDoc,
    i: int,
)
    requires
        0 <= i < m.len(),
        m[i].0 == (name, value),
    ensures
        spec_store_save_at(m, name, value, adds, i) == m.update(
            i,
            ((name, value), spec_doc_merge(m[i].1, adds)),
        ),
{
    assert(m.skip(i)[0] == m[i]);
    assert(m.skip(i).skip(1) =~= m.skip(i + 1));
    assert(spec_store_save(m.skip(i), name, value, adds) == seq![
        ((name, value), spec_doc_merge(m[i].1, adds)),
    ] + m.skip(i).skip(1));
    assert(m.take(i) + (seq![((name, value), spec_doc_merge(m[i].1, adds))] + m.skip(i + 1)) =~= m
        .update(i, ((name, value), spec_doc_merge(m[i].1, adds))));
}

/// A save that walks the whole store without finding its document
/// appends a new one.
proof fn lemma_store_save_end(m: StickyModel, name: Seq<char>, value: Seq<char>, adds: AssignDoc)
    ensures
        spec_store_save_at(m, name, value, adds, m.len() as int) == m + seq![
            ((name, value), spec_doc_merge(Seq::empty(), adds)),
        ],
{
    assert(m.skip(m.len() as int) =~= Seq::<((Seq<char>, Seq<char>), AssignDoc)>::empty());
    assert(m.take(m.len() as int) =~= m);
}

/// Looking up the saved attribute finds its old document, or a fresh
/// one, with the additions merged in.
pub proof fn lemma_store_save_lookup(
    m: StickyModel,
    name: Seq<char>,
    value: Seq<char>,
    adds: AssignDoc,
)
    ensures
        spec_store_lookup(spec_store_save(m, name, value, adds), name, value) == Some(
            spec_doc_merge(
                match spec_store_lookup(m, name, value) {
                    Some(d) => d,
                    None => Seq::empty(),
                },
                adds,
            ),
        ),
    decreases m.len(),
{
    if m.len() == 0 {
    } else if m[0].0 == (name, value) {
    } else {
        let saved = spec_store_save(m, name, value, adds);
        assert(saved == seq![m[0]] + spec_store_save(m.skip(1), name, value, adds));
        assert(saved.skip(1) =~= spec_store_save(m.skip(1), name, value, adds));
        lemma_store_save_lookup(m.skip(1), name, value, adds);
    }
}

/// Putting a binding changes what its own key reads and nothing else.
pub proof fn lemma_doc_put_lookup(d: AssignDoc, k: Seq<char>, val: Seq<char>, k2: Seq<char>)
    ensures
        spec_doc_lookup(spec_doc_put(d, k, val), k2) == if k2 == k {
            Some(val)
        } else {
            spec_doc_lookup(d, k2)
        },
    decreases d.len(),
{
    reveal_with_fuel(spec_doc_lookup, 3);
    if d.len() == 0 {
        let put = spec_doc_put(d, k, val);
        assert(put.skip(1) =~= Seq::<(Seq<char>, Seq<char>)>::empty());
    } else if d[0].0 == k {
        let put = spec_doc_put(d, k, val);
        assert(put == seq![(k, val)] + d.skip(1));
        assert(put.skip(1) =~= d.skip(1));
    } else {
        let put = spec_doc_put(d, k, val);
        assert(put == seq![d[0]] + spec_doc_put(d.skip(1), k, val));
        assert(put.skip(1) =~= spec_doc_put(d.skip(1), k, val));
        lemma_doc_put_lookup(d.skip(1), k, val, k2);
    }
}

/// Merging a single binding is one put.
pub proof fn lemma_doc_merge_single(d: AssignDoc, k: Seq<char>, val: Seq<char>)
    ensures
        spec_doc_merge(d, seq![(k, val)]) == spec_doc_put(d, k, val),
{
    reveal_with_fuel(spec_doc_merge, 3);
    let adds: AssignDoc = seq![(k, val)];
    assert(adds.skip(1) =~= Seq::<(Seq<char>, Seq<char>)>::empty());
    assert(spec_doc_merge(d, adds) == spec_doc_merge(spec_doc_put(d, k, val), adds.skip(1)));
}

/// Law: saving one assignment and then another under the same
/// attribute leaves both readable, because a save merges into the
/// stored document instead of replacing it.
pub proof fn lemma_save_assignments_merges(
    m: StickyModel,
    name: Seq<char>,
    value: Seq<char>,
    k1: Seq<char>,
    x: Seq<char>,
    k2: Seq<char>,
    y: Seq<char>,
)
    requires
        k1 != k2,
    ensures
        ({
            let m2 = spec_store_save(
                spec_store_save(m, name, value, seq![(k1, x)]),
                name,
                value,
                seq![(k2, y)],
            );
            &&& spec_store_lookup(m2, name, value) is Some
            &&& spec_doc_lookup(spec_store_lookup(m2, name, value)->Some_0, k1) == Some(x)
            &&& spec_doc_lookup(spec_store_lookup(m2, name, value)->Some_0, k2) == Some(y)
        }),
{
    let m1 = spec_store_save(m, name, value, seq![(k1, x)]);
    let d0 = match spec_store_lookup(m, name, value) {
        Some(d) => d,
        None => Seq::<(Seq<char>, Seq<char>)>::empty(),
    };
    lemma_store_save_lookup(m, name, value, seq![(k1, x)]);
    lemma_doc_merge_single(d0, k1, x);
    let d1 = spec_doc_put(d0, k1, x);
    lemma_store_save_lookup(m1, name, value, seq![(k2, y)]);
    lemma_doc_merge_single(d1, k2, y);
    let d2 = spec_doc_put(d1, k2, y);
    lemma_doc_put_lookup(d1, k2, y, k2);
    lemma_doc_put_lookup(d1, k2, y, k1);
    lemma_doc_put_lookup(d0, k1, x, k1);
}

/// The document with `key` bound to `val`, an existing binding
/// replaced in place.
#[verifier::loop_isolation(false)]
fn put_assignment(doc: &mut Vec<(String, String)>, key: &String, val: &String)
    ensures
        spec_assign_view(final(doc)@) == spec_doc_put(spec_assign_view(old(doc)@), key@, val@),
{
    let ghost d0 = spec_assign_view(old(doc)@);
    proof {
        assert(d0.skip(0) =~= d0);
    }
    let mut i: usize = 0;
    while i < doc.len()
        invariant
            i <= doc@.len(),
            doc@ == old(doc)@,
            d0.len() == doc@.len(),
            spec_doc_put(d0, key@, val@) == d0.take(i as int) + spec_doc_put(
                d0.skip(i as int),
                key@,
                val@,
            ),
            forall|k: int| 0 <= k < i ==> #[trigger] d0[k].0 != key@,
        decreases doc@.len() - i,
    {
        proof {
            assert(d0.skip(i as int)[0] == d0[i as int]);
            assert(d0.skip(i as int).skip(1) =~= d0.skip(i as int + 1));
        }
        if str_eq(doc[i].0.as_str(), key.as_str()) {
            doc.set(i, (key.clone(), val.clone()));
            proof {
                assert(spec_doc_put(d0.skip(i as int), key@, val@) == seq![(key@, val@)] + d0.skip(
                    i as int + 1,
                ));
                assert(spec_assign_view(doc@) =~= d0.take(i as int) + (seq![(key@, val@)] + d0.skip(
                    i as int + 1,
                )));
            }
            return ;
        }
        proof {
            assert(spec_doc_put(d0.skip(i as int), key@, val@) == seq![d0[i as int]]
                + spec_doc_put(d0.skip(i as int + 1), key@, val@));
            assert(d0.take(i as int) + (seq![d0[i as int]] + spec_doc_put(
                d0.skip(i as int + 1),
                key@,
                val@,
            )) =~= d0.take(i as int + 1) + spec_doc_put(d0.skip(i as int + 1), key@, val@));
        }
        i += 1;
    }
    doc.push((key.clone(), val.clone()));
    proof {
        assert(d0.skip(d0.len() as int) =~= Seq::<(Seq<char>, Seq<char>)>::empty());
        assert(d0.take(d0.len() as int) =~= d0);
        assert(spec_assign_view(doc@) =~= d0 + seq![(key@, val@)]);
    }
}

/// The first document with every binding of the second merged in,
/// left to right.
#[verifier::loop_isolation(false)]
pub fn merge_assignments(doc: &Vec<(String, String)>, adds: &Vec<(String, String)>) -> (r: Vec<
    (String, String),
>)
    ensures
        spec_assign_view(r@) == spec_doc_merge(spec_assign_view(doc@), spec_assign_view(adds@)),
{
    let ghost sadds = spec_assign_view(adds@);
    let mut out = clone_assignments(doc);
    proof {
        assert(sadds.skip(0) =~= sadds);
    }
    let mut i: usize = 0;
    while i < adds.len()
        invariant
            i <= adds@.len(),
            sadds.len() == adds@.len(),
            sadds == spec_assign_view(adds@),
            spec_doc_merge(spec_assign_view(doc@), sadds) == spec_doc_merge(
                spec_assign_view(out@),
                sadds.skip(i as int),
            ),
        decreases adds@.len() - i,
    {
        proof {
            assert(sadds.skip(i as int)[0] == sadds[i as int]);
            assert(sadds.skip(i as int).skip(1) =~= sadds.skip(i as int + 1));
        }
        put_assignment(&mut out, &adds[i].0, &adds[i].1);
        i += 1;
    }
    proof {
        assert(sadds.skip(adds@.len() as int) =~= Seq::<(Seq<char>, Seq<char>)>::empty());
    }
    out
}

} // verus!
