use vstd::prelude::*;
use crate::json::{
    diff_docs, diff_holds, diff_views, docs_agree, has_entry, has_key, parse_doc, parse_json, DiffModel, Difference,
    Doc, DocModel,
};
use crate::painless::{DocError, DocRole};

verus! {

/// What the cluster answered to a script evaluation request.
pub enum ClusterReply {
    /// An HTTP response.
    Response { status: u16, body: String },
    /// No response came: the connection or transport failed.
    Unreachable(String),
}

pub enum ReplyModel {
    Response { status: u16, body: Seq<char> },
    Unreachable(Seq<char>),
}

impl View for ClusterReply {
    type V = ReplyModel;

    open spec fn view(&self) -> ReplyModel {
        match self {
            ClusterReply::Response { status, body } => ReplyModel::Response { status: *status, body: body@ },
            ClusterReply::Unreachable(c) => ReplyModel::Unreachable(c@),
        }
    }
}

/// The result of one script test.
pub enum TestOutcome {
    /// The response is what was expected (or, with nothing expected, the call succeeded).
    Pass,
    /// The response differs from what was expected, in these ways.
    Mismatch(Vec<Difference>),
    /// The cluster refused the call, or answered with something other than JSON.
    Failed(String),
    /// The cluster could not be reached.
    Error(String),
}

/// What a test run comes to, as a value.
pub enum Verdict {
    Pass,
    Mismatch(Set<DiffModel>),
    Failed(Seq<char>),
    Error(Seq<char>),
    InvalidExpected,
}

pub open spec fn is_success(status: u16) -> bool {
    200 <= status < 300
}

/// The verdict on a reply, given the text of the expected document if any.
pub open spec fn verdict(expected: Option<Seq<char>>, reply: ReplyModel) -> Verdict {
    match reply {
        ReplyModel::Unreachable(c) => Verdict::Error(c),
        ReplyModel::Response { status, body } => {
            if !is_success(status) {
                Verdict::Failed(body)
            } else {
                match expected {
                    None => Verdict::Pass,
                    Some(t) => match parse_doc(t) {
                        None => Verdict::InvalidExpected,
                        Some(e) => match parse_doc(body) {
                            None => Verdict::Failed(body),
                            Some(g) => if docs_agree(e, g) {
                                Verdict::Pass
                            } else {
                                Verdict::Mismatch(Set::new(|d: DiffModel| diff_holds(e, g, d)))
                            },
                        },
                    },
                }
            }
        },
    }
}

/// The verdict that a result of `evaluate` stands for (`None` for an error
/// that `evaluate` never gives).
pub open spec fn verdict_of(r: Result<TestOutcome, DocError>) -> Option<Verdict> {
    match r {
        Ok(TestOutcome::Pass) => Some(Verdict::Pass),
        Ok(TestOutcome::Mismatch(ds)) => Some(Verdict::Mismatch(diff_views(ds@).to_set())),
        Ok(TestOutcome::Failed(m)) => Some(Verdict::Failed(m@)),
        Ok(TestOutcome::Error(m)) => Some(Verdict::Error(m@)),
        Err(DocError::InvalidDocument(DocRole::Expected)) => Some(Verdict::InvalidExpected),
        Err(_) => None,
    }
}

/// Judges the cluster's reply to a test: an unreachable cluster is an error, a
/// refused call a failure; with an expected document, the response must agree
/// with it member by member.
pub fn evaluate(expected: Option<&String>, reply: &ClusterReply) -> (r: Result<TestOutcome, DocError>)
    ensures
        verdict_of(r) == Some(
            verdict(
                match expected {
                    Some(t) => Some(t@),
                    None => None,
                },
                reply@,
            ),
        ),
        r matches Ok(TestOutcome::Mismatch(ds)) ==> diff_views(ds@).no_duplicates(),
{
    match reply {
        ClusterReply::Unreachable(c) => Ok(TestOutcome::Error(c.clone())),
        ClusterReply::Response { status, body } => {
            if *status < 200 || *status >= 300 {
                return Ok(TestOutcome::Failed(body.clone()));
            }
            match expected {
                None => Ok(TestOutcome::Pass),
                Some(t) => match parse_json(t.as_str()) {
                    None => Err(DocError::InvalidDocument(DocRole::Expected)),
                    Some(e) => match parse_json(body.as_str()) {
                        None => Ok(TestOutcome::Failed(body.clone())),
                        Some(g) => {
                            let ds = diff_docs(&e, &g);
                            proof {
                                assert(diff_views(ds@).to_set() =~= Set::new(|d: DiffModel| diff_holds(e@, g@, d)));
                            }
                            if ds.len() == 0 {
                                proof {
                                    assert forall|d: DiffModel| !diff_holds(e@, g@, d) by {
                                        assert(!diff_views(ds@).contains(d));
                                    }
                                }
                                Ok(TestOutcome::Pass)
                            } else {
                                proof {
                                    let d0 = diff_views(ds@)[0];
                                    assert(diff_views(ds@).contains(d0));
                                    assert(!docs_agree(e@, g@));
                                }
                                Ok(TestOutcome::Mismatch(ds))
                            }
                        },
                    },
                },
            }
        },
    }
}

/// A response that is structurally equal to the expected document passes,
/// however its text differs (order of keys, spacing).
pub proof fn lemma_equal_documents_pass(expected: Seq<char>, status: u16, body: Seq<char>)
    requires
        is_success(status),
        parse_doc(expected) is Some,
        parse_doc(body) is Some,
        parse_doc(expected)->0.wf(),
        parse_doc(body)->0.wf(),
        parse_doc(expected)->0.same_structure(parse_doc(body)->0),
    ensures
        verdict(Some(expected), ReplyModel::Response { status, body }) == Verdict::Pass,
{
    let e = parse_doc(expected)->0;
    let g = parse_doc(body)->0;
    assert forall|d: DiffModel| !diff_holds(e, g, d) by {
        if let (Some(em), Some(gm)) = (e.members, g.members) {
            match d {
                DiffModel::Missing { key, expected } => {
                    if has_entry(em, key, expected) {
                        assert(has_entry(gm, key, expected));
                        let s = choose|s: int| 0 <= s < gm.len() && gm[s].0 == key && gm[s].1 == expected;
                        assert(has_key(gm, key));
                    }
                },
                DiffModel::Changed { key, expected, got } => {
                    if has_entry(em, key, expected) && has_entry(gm, key, got) {
                        assert(has_entry(em, key, got));
                        let a = choose|a: int| 0 <= a < em.len() && em[a].0 == key && em[a].1 == expected;
                        let b = choose|b: int| 0 <= b < em.len() && em[b].0 == key && em[b].1 == got;
                        assert(a == b);
                    }
                },
                DiffModel::Unexpected { key, got } => {
                    if has_entry(gm, key, got) {
                        assert(has_entry(em, key, got));
                        let s = choose|s: int| 0 <= s < em.len() && em[s].0 == key && em[s].1 == got;
                        assert(has_key(em, key));
                    }
                },
                DiffModel::Root { .. } => {},
            }
        }
    }
}

/// When the expected document has a key that the response lacks, the test is
/// a mismatch that names that key as missing.
pub proof fn lemma_missing_key_reported(expected: Seq<char>, status: u16, body: Seq<char>, key: Seq<char>)
    requires
        is_success(status),
        parse_doc(expected) is Some,
        parse_doc(body) is Some,
        parse_doc(expected)->0.members is Some,
        parse_doc(body)->0.members is Some,
        has_key(parse_doc(expected)->0.members->0, key),
        !has_key(parse_doc(body)->0.members->0, key),
    ensures
        verdict(Some(expected), ReplyModel::Response { status, body }) is Mismatch,
        exists|v: Seq<char>|
            verdict(Some(expected), ReplyModel::Response { status, body })->Mismatch_0.contains(
                DiffModel::Missing { key, expected: v },
            ),
{
    let e = parse_doc(expected)->0;
    let g = parse_doc(body)->0;
    let em = e.members->0;
    let i = choose|i: int| 0 <= i < em.len() && em[i].0 == key;
    let d = DiffModel::Missing { key, expected: em[i].1 };
    assert(diff_holds(e, g, d));
    assert(!docs_agree(e, g));
    let ds = verdict(Some(expected), ReplyModel::Response { status, body })->Mismatch_0;
    assert(ds == Set::new(|x: DiffModel| diff_holds(e, g, x)));
    assert(ds.contains(d));
}

/// With nothing expected, a call that the cluster refuses fails the test.
pub proof fn lemma_refused_call_fails(status: u16, body: Seq<char>)
    requires
        !is_success(status),
    ensures
        verdict(None, ReplyModel::Response { status, body }) == Verdict::Failed(body),
{
}

/// A validated request for one script evaluation.
pub struct ScriptRequest {
    pub id: String,
    pub state: Option<Doc>,
    pub incoming: Doc,
}

/// `req` is the request for test `id` with these parsed documents.
pub open spec fn request_for(req: ScriptRequest, id: Seq<char>, state: Option<DocModel>, incoming: DocModel) -> bool {
    &&& req.id@ == id
    &&& req.incoming@ == incoming
    &&& req.incoming.wf()
    &&& match (req.state, state) {
        (Some(st), Some(sd)) => st@ == sd && st.wf(),
        (None, None) => true,
        _ => false,
    }
}

/// Checks the documents of a test before it is sent: the incoming payload,
/// then the prior state if there is one, must be JSON.
pub fn prepare_request(id: &str, state: Option<&String>, incoming: &String) -> (r: Result<ScriptRequest, DocError>)
    ensures
        match parse_doc(incoming@) {
            None => r matches Err(DocError::InvalidDocument(DocRole::Incoming)),
            Some(i) => match state {
                None => r matches Ok(req) && request_for(req, id@, None, i),
                Some(s) => match parse_doc(s@) {
                    None => r matches Err(DocError::InvalidDocument(DocRole::State)),
                    Some(sd) => r matches Ok(req) && request_for(req, id@, Some(sd), i),
                },
            },
        },
{
    let inc = match parse_json(incoming.as_str()) {
        Some(d) => d,
        None => return Err(DocError::InvalidDocument(DocRole::Incoming)),
    };
    let st = match state {
        Some(s) => match parse_json(s.as_str()) {
            Some(d) => Some(d),
            None => return Err(DocError::InvalidDocument(DocRole::State)),
        },
        None => None,
    };
    Ok(ScriptRequest { id: id.to_string(), state: st, incoming: inc })
}

} // verus!
