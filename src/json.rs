use vstd::prelude::*;

verus! {

/// What a JSON document is to the comparison: its canonical text and, when it
/// is an object, its members as (key, canonical text of the value) pairs.
pub struct DocModel {
    pub text: Seq<char>,
    pub members: Option<Seq<(Seq<char>, Seq<char>)>>,
}

/// The document that a JSON text parses to, or `None` for text that is not JSON.
pub uninterp spec fn parse_doc(text: Seq<char>) -> Option<DocModel>;

/// A parsed JSON document.
pub struct Doc {
    pub text: String,
    pub members: Option<Vec<(String, String)>>,
}

pub open spec fn entries_view(v: Seq<(String, String)>) -> Seq<(Seq<char>, Seq<char>)> {
    v.map_values(|p: (String, String)| (p.0@, p.1@))
}

pub open spec fn keys_distinct(e: Seq<(Seq<char>, Seq<char>)>) -> bool {
    forall|i: int, j: int| 0 <= i < e.len() && 0 <= j < e.len() && i != j ==> e[i].0 != e[j].0
}

pub open spec fn has_key(e: Seq<(Seq<char>, Seq<char>)>, k: Seq<char>) -> bool {
    exists|i: int| 0 <= i < e.len() && e[i].0 == k
}

pub open spec fn has_entry(e: Seq<(Seq<char>, Seq<char>)>, k: Seq<char>, v: Seq<char>) -> bool {
    exists|i: int| 0 <= i < e.len() && e[i].0 == k && e[i].1 == v
}

/// Two member lists hold the same key/value pairs, in whatever order.
pub open spec fn same_members(a: Seq<(Seq<char>, Seq<char>)>, b: Seq<(Seq<char>, Seq<char>)>) -> bool {
    forall|k: Seq<char>, v: Seq<char>| has_entry(a, k, v) <==> has_entry(b, k, v)
}

impl DocModel {
    /// An object's keys are distinct.
    pub open spec fn wf(self) -> bool {
        self.members matches Some(m) ==> keys_distinct(m)
    }

    /// Structural equality: objects with the same members in any order, other
    /// values with the same canonical text.
    pub open spec fn same_structure(self, other: DocModel) -> bool {
        match (self.members, other.members) {
            (Some(a), Some(b)) => same_members(a, b),
            (None, None) => self.text == other.text,
            _ => false,
        }
    }
}

impl View for Doc {
    type V = DocModel;

    open spec fn view(&self) -> DocModel {
        DocModel {
            text: self.text@,
            members: match self.members {
                Some(v) => Some(entries_view(v@)),
                None => None,
            },
        }
    }
}

impl Doc {
    pub open spec fn wf(&self) -> bool {
        self@.wf()
    }
}

/// Relies on serde_json::from_str (into a serde_json::Value) and on the
/// Value's compact serialisation (its Display) for the text of the document and
/// of each member value. Members come from a serde_json::Map, whose keys are
/// distinct.
#[verifier::external_body]
pub(crate) fn parse_json(text: &str) -> (r: Option<Doc>)
    ensures
        r is None ==> parse_doc(text@) is None,
        r matches Some(d) ==> parse_doc(text@) == Some(d@) && d.wf(),
{
    match serde_json::from_str::<serde_json::Value>(text) {
        Ok(v) => Some(Doc {
            text: v.to_string(),
            members: v.as_object().map(|m| m.iter().map(|(k, w)| (k.clone(), w.to_string())).collect()),
        }),
        Err(_) => None,
    }
}

/// One way in which a document differs from the one that was expected.
pub enum Difference {
    /// A key of the expected object is absent.
    Missing { key: String, expected: String },
    /// A key holds another value than expected.
    Changed { key: String, expected: String, got: String },
    /// A key that the expected object does not have.
    Unexpected { key: String, got: String },
    /// The documents are not both objects, and their texts differ.
    Root { expected: String, got: String },
}

pub enum DiffModel {
    Missing { key: Seq<char>, expected: Seq<char> },
    Changed { key: Seq<char>, expected: Seq<char>, got: Seq<char> },
    Unexpected { key: Seq<char>, got: Seq<char> },
    Root { expected: Seq<char>, got: Seq<char> },
}

impl View for Difference {
    type V = DiffModel;

    open spec fn view(&self) -> DiffModel {
        match self {
            Difference::Missing { key, expected } => DiffModel::Missing { key: key@, expected: expected@ },
            Difference::Changed { key, expected, got } => DiffModel::Changed {
                key: key@,
                expected: expected@,
                got: got@,
            },
            Difference::Unexpected { key, got } => DiffModel::Unexpected { key: key@, got: got@ },
            Difference::Root { expected, got } => DiffModel::Root { expected: expected@, got: got@ },
        }
    }
}

pub open spec fn diff_views(s: Seq<Difference>) -> Seq<DiffModel> {
    s.map_values(|d: Difference| d@)
}

/// `d` is one of the differences between `exp` (what was expected) and `got`.
pub open spec fn diff_holds(exp: DocModel, got: DocModel, d: DiffModel) -> bool {
    match (exp.members, got.members) {
        (Some(em), Some(gm)) => match d {
            DiffModel::Missing { key, expected } => has_entry(em, key, expected) && !has_key(gm, key),
            DiffModel::Changed { key, expected, got } => has_entry(em, key, expected) && has_entry(
                gm,
                key,
                got,
            ) && expected != got,
            DiffModel::Unexpected { key, got } => !has_key(em, key) && has_entry(gm, key, got),
            DiffModel::Root { .. } => false,
        },
        _ => exp.text != got.text && d == (DiffModel::Root { expected: exp.text, got: got.text }),
    }
}

/// The documents agree: no difference holds between them.
pub open spec fn docs_agree(exp: DocModel, got: DocModel) -> bool {
    forall|d: DiffModel| !diff_holds(exp, got, d)
}

/// Index of the member with key `key`.
pub(crate) fn find_key(entries: &Vec<(String, String)>, key: &String) -> (r: Option<usize>)
    ensures
        r matches Some(j) ==> j < entries@.len() && entries@[j as int].0@ == key@,
        r is None ==> !has_key(entries_view(entries@), key@),
{
    let mut j: usize = 0;
    while j < entries.len()
        invariant
            j <= entries@.len(),
            forall|t: int| 0 <= t < j ==> entries@[t].0@ != key@,
        decreases entries@.len() - j,
    {
        if entries[j].0 == *key {
            return Some(j);
        }
        j = j + 1;
    }
    proof {
        let ev = entries_view(entries@);
        assert forall|t: int| 0 <= t < ev.len() implies ev[t].0 != key@ by {
            assert(ev[t] == (entries@[t].0@, entries@[t].1@));
        }
    }
    None
}

/// The text of the value of member `key`, where the document is an object that
/// has one.
pub fn member_value(doc: &Doc, key: &String) -> (r: Option<String>)
    requires
        doc.wf(),
    ensures
        match doc@.members {
            Some(m) => if has_key(m, key@) {
                r matches Some(v) && v@ == value_of(m, key@)
            } else {
                r is None
            },
            None => r is None,
        },
{
    match &doc.members {
        Some(m) => match find_key(m, key) {
            Some(j) => {
                proof {
                    let ev = entries_view(m@);
                    assert(ev[j as int] == (m@[j as int].0@, m@[j as int].1@));
                    lemma_value_of(ev, key@, ev[j as int].1);
                }
                Some(m[j].1.clone())
            },
            None => None,
        },
        None => None,
    }
}

pub open spec fn diff_key(d: DiffModel) -> Seq<char> {
    match d {
        DiffModel::Missing { key, .. } => key,
        DiffModel::Changed { key, .. } => key,
        DiffModel::Unexpected { key, .. } => key,
        DiffModel::Root { .. } => Seq::empty(),
    }
}

proof fn lemma_push_fresh(s: Seq<DiffModel>, x: DiffModel)
    requires
        s.no_duplicates(),
        !s.contains(x),
    ensures
        s.push(x).no_duplicates(),
{
    let t = s.push(x);
    assert forall|a: int, b: int| 0 <= a < t.len() && 0 <= b < t.len() && a != b implies t[a] != t[b] by {
        if a == s.len() {
            assert(s.contains(t[b]));
        } else if b == s.len() {
            assert(s.contains(t[a]));
        }
    }
}

proof fn lemma_views_push(s: Seq<Difference>, x: Difference)
    ensures
        diff_views(s.push(x)) == diff_views(s).push(x@),
{
    assert(diff_views(s.push(x)) =~= diff_views(s).push(x@));
}

/// The value that the member list `e` holds for `k`, where it has that key.
pub open spec fn value_of(e: Seq<(Seq<char>, Seq<char>)>, k: Seq<char>) -> Seq<char> {
    e[choose|s: int| 0 <= s < e.len() && e[s].0 == k].1
}

/// The difference, if any, that the expected member at `i` gives rise to.
pub open spec fn member_diff(ev: Seq<(Seq<char>, Seq<char>)>, gv: Seq<(Seq<char>, Seq<char>)>, i: int) -> Option<DiffModel> {
    let k = ev[i].0;
    let v = ev[i].1;
    if !has_key(gv, k) {
        Some(DiffModel::Missing { key: k, expected: v })
    } else if value_of(gv, k) != v {
        Some(DiffModel::Changed { key: k, expected: v, got: value_of(gv, k) })
    } else {
        None
    }
}

/// The difference, if any, that the received member at `j` gives rise to.
pub open spec fn extra_diff(ev: Seq<(Seq<char>, Seq<char>)>, gv: Seq<(Seq<char>, Seq<char>)>, j: int) -> Option<DiffModel> {
    if has_key(ev, gv[j].0) {
        None
    } else {
        Some(DiffModel::Unexpected { key: gv[j].0, got: gv[j].1 })
    }
}

pub open spec fn covered_expected(e: DocModel, g: DocModel, d: DiffModel, i: int) -> bool {
    diff_holds(e, g, d) && !(d is Unexpected) && exists|t: int| 0 <= t < i && e.members->0[t].0 == diff_key(d)
}

pub open spec fn covered_received(e: DocModel, g: DocModel, d: DiffModel, j: int) -> bool {
    diff_holds(e, g, d) && (!(d is Unexpected) || exists|t: int| 0 <= t < j && g.members->0[t].0 == diff_key(d))
}

pub open spec fn opt_push(s: Seq<DiffModel>, x: Option<DiffModel>) -> Seq<DiffModel> {
    match x {
        Some(d) => s.push(d),
        None => s,
    }
}

proof fn lemma_value_of(e: Seq<(Seq<char>, Seq<char>)>, k: Seq<char>, v: Seq<char>)
    requires
        keys_distinct(e),
        has_entry(e, k, v),
    ensures
        has_key(e, k),
        value_of(e, k) == v,
{
    let s = choose|s: int| 0 <= s < e.len() && e[s].0 == k && e[s].1 == v;
    assert(has_key(e, k));
}

proof fn lemma_expected_step(e: DocModel, g: DocModel, old: Seq<DiffModel>, i: int)
    requires
        e.wf(),
        g.wf(),
        e.members is Some,
        g.members is Some,
        0 <= i < e.members->0.len(),
        old.no_duplicates(),
        forall|d: DiffModel| old.contains(d) <==> covered_expected(e, g, d, i),
    ensures
        opt_push(old, member_diff(e.members->0, g.members->0, i)).no_duplicates(),
        forall|d: DiffModel|
            opt_push(old, member_diff(e.members->0, g.members->0, i)).contains(d) <==> covered_expected(e, g, d, i + 1),
{
    let ev = e.members->0;
    let gv = g.members->0;
    let k = ev[i].0;
    let v = ev[i].1;
    let md = member_diff(ev, gv, i);
    let new = opt_push(old, md);
    assert(has_entry(ev, k, v));
    if has_key(gv, k) {
        let s = choose|s: int| 0 <= s < gv.len() && gv[s].0 == k;
        assert(has_entry(gv, k, value_of(gv, k)));
    }
    assert forall|d: DiffModel| diff_holds(e, g, d) && !(d is Unexpected) && diff_key(d) == k implies md == Some(d) by {
        match d {
            DiffModel::Missing { key, expected } => {
                lemma_value_of(ev, k, expected);
            },
            DiffModel::Changed { key, expected, got } => {
                lemma_value_of(ev, k, expected);
                lemma_value_of(gv, k, got);
            },
            _ => {},
        }
    }
    assert forall|d: DiffModel| md == Some(d) implies diff_holds(e, g, d) && !(d is Unexpected) && diff_key(d) == k by {}
    assert forall|d: DiffModel| covered_expected(e, g, d, i + 1) <==> (covered_expected(e, g, d, i) || md == Some(d)) by {
        if covered_expected(e, g, d, i + 1) {
            let t = choose|t: int| 0 <= t < i + 1 && ev[t].0 == diff_key(d);
            if t < i {
                assert(covered_expected(e, g, d, i));
            }
        }
        if md == Some(d) {
            assert(ev[i].0 == diff_key(d));
        }
    }
    if let Some(x) = md {
        assert(!old.contains(x)) by {
            if old.contains(x) {
                let t = choose|t: int| 0 <= t < i && ev[t].0 == diff_key(x);
            }
        }
        lemma_push_fresh(old, x);
        assert forall|d: DiffModel| new.contains(d) <==> (old.contains(d) || d == x) by {
            if new.contains(d) {
                let p = choose|p: int| 0 <= p < new.len() && new[p] == d;
                if p < old.len() {
                    assert(old[p] == d);
                }
            }
            if d == x {
                assert(new[old.len() as int] == x);
            }
            if old.contains(d) {
                let p = choose|p: int| 0 <= p < old.len() && old[p] == d;
                assert(new[p] == d);
            }
        }
    }
}

proof fn lemma_received_step(e: DocModel, g: DocModel, old: Seq<DiffModel>, j: int)
    requires
        e.wf(),
        g.wf(),
        e.members is Some,
        g.members is Some,
        0 <= j < g.members->0.len(),
        old.no_duplicates(),
        forall|d: DiffModel| old.contains(d) <==> covered_received(e, g, d, j),
    ensures
        opt_push(old, extra_diff(e.members->0, g.members->0, j)).no_duplicates(),
        forall|d: DiffModel|
            opt_push(old, extra_diff(e.members->0, g.members->0, j)).contains(d) <==> covered_received(e, g, d, j + 1),
{
    let ev = e.members->0;
    let gv = g.members->0;
    let k = gv[j].0;
    let w = gv[j].1;
    let xd = extra_diff(ev, gv, j);
    let new = opt_push(old, xd);
    assert(has_entry(gv, k, w));
    assert forall|d: DiffModel| diff_holds(e, g, d) && d is Unexpected && diff_key(d) == k implies xd == Some(d) by {
        lemma_value_of(gv, k, d->Unexpected_got);
        lemma_value_of(gv, k, w);
    }
    assert forall|d: DiffModel| covered_received(e, g, d, j + 1) <==> (covered_received(e, g, d, j) || xd == Some(d)) by {
        if covered_received(e, g, d, j + 1) && d is Unexpected {
            let t = choose|t: int| 0 <= t < j + 1 && gv[t].0 == diff_key(d);
            if t < j {
                assert(covered_received(e, g, d, j));
            }
        }
        if xd == Some(d) {
            assert(gv[j].0 == diff_key(d));
        }
    }
    if let Some(x) = xd {
        assert(!old.contains(x)) by {
            if old.contains(x) {
                let t = choose|t: int| 0 <= t < j && gv[t].0 == diff_key(x);
            }
        }
        lemma_push_fresh(old, x);
        assert forall|d: DiffModel| new.contains(d) <==> (old.contains(d) || d == x) by {
            if new.contains(d) {
                let p = choose|p: int| 0 <= p < new.len() && new[p] == d;
                if p < old.len() {
                    assert(old[p] == d);
                }
            }
            if d == x {
                assert(new[old.len() as int] == x);
            }
            if old.contains(d) {
                let p = choose|p: int| 0 <= p < old.len() && old[p] == d;
                assert(new[p] == d);
            }
        }
    }
}

/// Every difference between the expected document and the one received: for
/// two objects, key by key; otherwise, the two texts when they differ.
pub fn diff_docs(expected: &Doc, got: &Doc) -> (r: Vec<Difference>)
    requires
        expected.wf(),
        got.wf(),
    ensures
        forall|d: DiffModel| diff_views(r@).contains(d) <==> diff_holds(expected@, got@, d),
        diff_views(r@).no_duplicates(),
{
    let mut out: Vec<Difference> = Vec::new();
    match (&expected.members, &got.members) {
        (Some(em), Some(gm)) => {
            let ghost ev = entries_view(em@);
            let ghost gv = entries_view(gm@);
            assert(diff_views(out@) =~= Seq::<DiffModel>::empty());
            let mut i: usize = 0;
            while i < em.len()
                invariant
                    i <= em@.len(),
                    ev == entries_view(em@),
                    gv == entries_view(gm@),
                    expected.wf(),
                    got.wf(),
                    expected@.members == Some(ev),
                    got@.members == Some(gv),
                    forall|d: DiffModel| diff_views(out@).contains(d) <==> covered_expected(expected@, got@, d, i as int),
                    diff_views(out@).no_duplicates(),
                decreases em@.len() - i,
            {
                let ghost old_out = out@;
                proof {
                    lemma_expected_step(expected@, got@, diff_views(old_out), i as int);
                }
                assert(ev[i as int] == (em@[i as int].0@, em@[i as int].1@));
                match find_key(gm, &em[i].0) {
                    Some(j) => {
                        proof {
                            assert(gv[j as int] == (gm@[j as int].0@, gm@[j as int].1@));
                            lemma_value_of(gv, ev[i as int].0, gv[j as int].1);
                        }
                        if gm[j].1 != em[i].1 {
                            let d = Difference::Changed {
                                key: em[i].0.clone(),
                                expected: em[i].1.clone(),
                                got: gm[j].1.clone(),
                            };
                            out.push(d);
                            proof { lemma_views_push(old_out, d); }
                        }
                    },
                    None => {
                        let d = Difference::Missing { key: em[i].0.clone(), expected: em[i].1.clone() };
                        out.push(d);
                        proof { lemma_views_push(old_out, d); }
                    },
                }
                assert(diff_views(out@) == opt_push(diff_views(old_out), member_diff(ev, gv, i as int)));
                i = i + 1;
            }
            assert forall|d: DiffModel| diff_views(out@).contains(d) <==> covered_received(expected@, got@, d, 0) by {
                if diff_holds(expected@, got@, d) && !(d is Unexpected) {
                    let k = diff_key(d);
                    if d is Missing {
                        let s = choose|s: int| 0 <= s < ev.len() && ev[s].0 == k && ev[s].1 == d->Missing_expected;
                    } else {
                        let s = choose|s: int| 0 <= s < ev.len() && ev[s].0 == k && ev[s].1 == d->Changed_expected;
                    }
                }
            }
            let mut j: usize = 0;
            while j < gm.len()
                invariant
                    j <= gm@.len(),
                    ev == entries_view(em@),
                    gv == entries_view(gm@),
                    expected.wf(),
                    got.wf(),
                    expected@.members == Some(ev),
                    got@.members == Some(gv),
                    forall|d: DiffModel| diff_views(out@).contains(d) <==> covered_received(expected@, got@, d, j as int),
                    diff_views(out@).no_duplicates(),
                decreases gm@.len() - j,
            {
                let ghost old_out = out@;
                proof {
                    lemma_received_step(expected@, got@, diff_views(old_out), j as int);
                }
                assert(gv[j as int] == (gm@[j as int].0@, gm@[j as int].1@));
                let found = find_key(em, &gm[j].0);
                if let Some(t) = found {
                    assert(ev[t as int] == (em@[t as int].0@, em@[t as int].1@));
                    assert(has_key(ev, gv[j as int].0));
                }
                if found.is_none() {
                    let d = Difference::Unexpected { key: gm[j].0.clone(), got: gm[j].1.clone() };
                    out.push(d);
                    proof { lemma_views_push(old_out, d); }
                }
                assert(diff_views(out@) == opt_push(diff_views(old_out), extra_diff(ev, gv, j as int)));
                j = j + 1;
            }
            assert forall|d: DiffModel| diff_holds(expected@, got@, d) implies covered_received(expected@, got@, d, gv.len() as int) by {
                if d is Unexpected {
                    let s = choose|s: int| 0 <= s < gv.len() && gv[s].0 == diff_key(d) && gv[s].1 == d->Unexpected_got;
                }
            }
        },
        _ => {
            if expected.text != got.text {
                let d = Difference::Root { expected: expected.text.clone(), got: got.text.clone() };
                out.push(d);
                assert(diff_views(out@) =~= seq![d@]);
                assert(diff_views(out@)[0] == d@);
            } else {
                assert(diff_views(out@) =~= Seq::<DiffModel>::empty());
            }
        },
    }
    out
}

} // verus!
