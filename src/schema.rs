use vstd::prelude::*;

use crate::identifiers::{StoreObjectIID, StoreObjectOID};

verus! {

/// The logical content of the four index tables of one bucket.
pub struct IndexModel {
    pub term_to_iids: Map<Seq<char>, Seq<u64>>,
    pub oid_to_iid: Map<Seq<char>, u64>,
    pub iid_to_oid: Map<u64, Seq<char>>,
    pub iid_to_terms: Map<u64, Seq<Seq<char>>>,
}

/// One write to one index table, as the model sees it.
pub enum MutationView {
    SetTermToIIDs(Seq<char>, Seq<u64>),
    DeleteTermToIIDs(Seq<char>),
    SetOIDToIID(Seq<char>, u64),
    DeleteOIDToIID(Seq<char>),
    SetIIDToOID(u64, Seq<char>),
    DeleteIIDToOID(u64),
    SetIIDToTerms(u64, Seq<Seq<char>>),
    DeleteIIDToTerms(u64),
}

/// One write to one index table: the unit of an atomic write batch.
pub enum IndexMutation {
    SetTermToIIDs(String, Vec<StoreObjectIID>),
    DeleteTermToIIDs(String),
    SetOIDToIID(StoreObjectOID, StoreObjectIID),
    DeleteOIDToIID(StoreObjectOID),
    SetIIDToOID(StoreObjectIID, StoreObjectOID),
    DeleteIIDToOID(StoreObjectIID),
    SetIIDToTerms(StoreObjectIID, Vec<String>),
    DeleteIIDToTerms(StoreObjectIID),
}

impl View for IndexMutation {
    type V = MutationView;

    open spec fn view(&self) -> MutationView {
        match self {
            IndexMutation::SetTermToIIDs(t, p) => MutationView::SetTermToIIDs(t@, p@),
            IndexMutation::DeleteTermToIIDs(t) => MutationView::DeleteTermToIIDs(t@),
            IndexMutation::SetOIDToIID(o, i) => MutationView::SetOIDToIID(o@, *i),
            IndexMutation::DeleteOIDToIID(o) => MutationView::DeleteOIDToIID(o@),
            IndexMutation::SetIIDToOID(i, o) => MutationView::SetIIDToOID(*i, o@),
            IndexMutation::DeleteIIDToOID(i) => MutationView::DeleteIIDToOID(*i),
            IndexMutation::SetIIDToTerms(i, ts) => MutationView::SetIIDToTerms(*i, terms_view(ts@)),
            IndexMutation::DeleteIIDToTerms(i) => MutationView::DeleteIIDToTerms(*i),
        }
    }
}

/// The texts of a list of terms, in order.
pub open spec fn terms_view(terms: Seq<String>) -> Seq<Seq<char>> {
    terms.map_values(|t: String| t@)
}

/// The contents of a list of postings, in order.
pub open spec fn postings_view(postings: Seq<Vec<StoreObjectIID>>) -> Seq<Seq<u64>> {
    postings.map_values(|p: Vec<StoreObjectIID>| p@)
}

/// The views of a list of mutations, in order.
pub open spec fn mutations_view(ms: Seq<IndexMutation>) -> Seq<MutationView> {
    ms.map_values(|m: IndexMutation| m@)
}

/// The state after one mutation.
pub open spec fn apply_mutation(s: IndexModel, m: MutationView) -> IndexModel {
    match m {
        MutationView::SetTermToIIDs(t, p) => IndexModel {
            term_to_iids: s.term_to_iids.insert(t, p),
            ..s
        },
        MutationView::DeleteTermToIIDs(t) => IndexModel {
            term_to_iids: s.term_to_iids.remove(t),
            ..s
        },
        MutationView::SetOIDToIID(o, i) => IndexModel { oid_to_iid: s.oid_to_iid.insert(o, i), ..s },
        MutationView::DeleteOIDToIID(o) => IndexModel { oid_to_iid: s.oid_to_iid.remove(o), ..s },
        MutationView::SetIIDToOID(i, o) => IndexModel { iid_to_oid: s.iid_to_oid.insert(i, o), ..s },
        MutationView::DeleteIIDToOID(i) => IndexModel { iid_to_oid: s.iid_to_oid.remove(i), ..s },
        MutationView::SetIIDToTerms(i, ts) => IndexModel {
            iid_to_terms: s.iid_to_terms.insert(i, ts),
            ..s
        },
        MutationView::DeleteIIDToTerms(i) => IndexModel {
            iid_to_terms: s.iid_to_terms.remove(i),
            ..s
        },
    }
}

/// The state after a list of mutations, applied first to last.
pub open spec fn apply_mutations(s: IndexModel, ms: Seq<MutationView>) -> IndexModel
    decreases ms.len(),
{
    if ms.len() == 0 {
        s
    } else {
        apply_mutation(apply_mutations(s, ms.drop_last()), ms.last())
    }
}

/// The postings of a term as stored: an absent entry reads as empty.
pub open spec fn postings_of(s: IndexModel, term: Seq<char>) -> Seq<u64> {
    if s.term_to_iids.contains_key(term) {
        s.term_to_iids[term]
    } else {
        Seq::empty()
    }
}

/// `postings` with every occurrence of `iid` taken out, order kept.
pub open spec fn postings_without(postings: Seq<u64>, iid: u64) -> Seq<u64>
    decreases postings.len(),
{
    if postings.len() == 0 {
        Seq::empty()
    } else {
        let kept = postings_without(postings.drop_last(), iid);
        if postings.last() == iid {
            kept
        } else {
            kept.push(postings.last())
        }
    }
}

/// The write that takes `iid` out of the postings of `term`: the entry goes
/// away once nothing is left in it.
pub open spec fn removal_of(term: Seq<char>, postings: Seq<u64>, iid: u64) -> MutationView {
    let kept = postings_without(postings, iid);
    if kept.len() == 0 {
        MutationView::DeleteTermToIIDs(term)
    } else {
        MutationView::SetTermToIIDs(term, kept)
    }
}

/// The writes of an insert: the identifier pair, the reverse index, then
/// `iid` appended to the postings of each term (`postings[i]` being those of
/// `terms[i]` before the insert).
pub open spec fn insert_plan(
    oid: Seq<char>,
    iid: u64,
    terms: Seq<Seq<char>>,
    postings: Seq<Seq<u64>>,
) -> Seq<MutationView> {
    seq![
        MutationView::SetOIDToIID(oid, iid),
        MutationView::SetIIDToOID(iid, oid),
        MutationView::SetIIDToTerms(iid, terms),
    ] + Seq::new(terms.len(), |i: int| MutationView::SetTermToIIDs(terms[i], postings[i].push(iid)))
}

/// The writes of a delete. `OIDToIID` goes first and `IIDToOID` last, so that
/// every state strictly between the two ends holds a dangling identifier.
pub open spec fn delete_plan(
    oid: Seq<char>,
    iid: u64,
    terms: Seq<Seq<char>>,
    postings: Seq<Seq<u64>>,
) -> Seq<MutationView> {
    seq![MutationView::DeleteOIDToIID(oid)] + Seq::new(
        terms.len(),
        |i: int| removal_of(terms[i], postings[i], iid),
    ) + seq![MutationView::DeleteIIDToTerms(iid), MutationView::DeleteIIDToOID(iid)]
}

/// The postings of each of `terms`, read from `s`.
pub open spec fn postings_read(s: IndexModel, terms: Seq<Seq<char>>) -> Seq<Seq<u64>> {
    terms.map_values(|t: Seq<char>| postings_of(s, t))
}

/// The insert of object `oid` under the fresh `iid`, with the reads it makes of `s`.
pub open spec fn insert_plan_in(s: IndexModel, oid: Seq<char>, iid: u64, terms: Seq<Seq<char>>) -> Seq<
    MutationView,
> {
    insert_plan(oid, iid, terms, postings_read(s, terms))
}

/// The delete of object `oid`, with the reads it makes of `s`.
pub open spec fn delete_plan_in(s: IndexModel, oid: Seq<char>) -> Seq<MutationView>
    recommends
        s.oid_to_iid.contains_key(oid),
        s.iid_to_terms.contains_key(s.oid_to_iid[oid]),
{
    let iid = s.oid_to_iid[oid];
    let terms = s.iid_to_terms[iid];
    delete_plan(oid, iid, terms, postings_read(s, terms))
}

/// `iid` has an `IIDToOID` entry whose object does not map back to it.
pub open spec fn dangling_iid(s: IndexModel, iid: u64) -> bool {
    s.iid_to_oid.contains_key(iid) && !(s.oid_to_iid.contains_key(s.iid_to_oid[iid])
        && s.oid_to_iid[s.iid_to_oid[iid]] == iid)
}

/// The postings of `term` reference `iid`, which has no `IIDToOID` entry.
pub open spec fn orphan_posting(s: IndexModel, term: Seq<char>, iid: u64) -> bool {
    postings_of(s, term).contains(iid) && !s.iid_to_oid.contains_key(iid)
}

/// The postings of a term with `iid` taken out, order kept.
pub fn remove_posting(postings: &Vec<StoreObjectIID>, iid: StoreObjectIID) -> (r: Vec<
    StoreObjectIID,
>)
    ensures
        r@ == postings_without(postings@, iid),
{
    let mut kept: Vec<StoreObjectIID> = Vec::new();
    let mut i: usize = 0;
    while i < postings.len()
        invariant
            i <= postings.len(),
            kept@ == postings_without(postings@.take(i as int), iid),
        decreases postings.len() - i,
    {
        let p = postings[i];
        assert(postings@.take(i + 1).drop_last() =~= postings@.take(i as int));
        if p != iid {
            kept.push(p);
        }
        i += 1;
    }
    assert(postings@.take(postings.len() as int) =~= postings@);
    kept
}

/// The postings of a term with `iid` appended.
pub fn append_posting(postings: &Vec<StoreObjectIID>, iid: StoreObjectIID) -> (r: Vec<
    StoreObjectIID,
>)
    ensures
        r@ == postings@.push(iid),
{
    let mut extended: Vec<StoreObjectIID> = Vec::new();
    let mut i: usize = 0;
    while i < postings.len()
        invariant
            i <= postings.len(),
            extended@ == postings@.take(i as int),
        decreases postings.len() - i,
    {
        extended.push(postings[i]);
        i += 1;
        assert(extended@ =~= postings@.take(i as int));
    }
    assert(postings@.take(postings.len() as int) =~= postings@);
    extended.push(iid);
    extended
}

fn copy_terms(terms: &Vec<String>) -> (r: Vec<String>)
    ensures
        terms_view(r@) == terms_view(terms@),
{
    let mut copied: Vec<String> = Vec::new();
    let mut i: usize = 0;
    while i < terms.len()
        invariant
            i <= terms.len(),
            copied@ == terms@.take(i as int),
        decreases terms.len() - i,
    {
        let t = terms[i].clone();
        copied.push(t);
        i += 1;
        assert(copied@ =~= terms@.take(i as int));
    }
    assert(terms@.take(terms.len() as int) =~= terms@);
    copied
}

/// The write that takes `iid` out of the postings of `term`.
pub fn removal(term: &String, postings: &Vec<StoreObjectIID>, iid: StoreObjectIID) -> (r:
    IndexMutation)
    ensures
        r@ == removal_of(term@, postings@, iid),
{
    let kept = remove_posting(postings, iid);
    if kept.len() == 0 {
        IndexMutation::DeleteTermToIIDs(term.clone())
    } else {
        IndexMutation::SetTermToIIDs(term.clone(), kept)
    }
}

/// The writes that insert object `oid` under `iid` with `terms`, where
/// `postings[i]` holds the postings of `terms[i]` as read before the insert
/// (empty where there were none). They are meant for one atomic batch;
/// `None` where the two lists differ in length.
pub fn plan_insert(
    oid: &StoreObjectOID,
    iid: StoreObjectIID,
    terms: &Vec<String>,
    postings: &Vec<Vec<StoreObjectIID>>,
) -> (r: Option<Vec<IndexMutation>>)
    ensures
        r is Some <==> terms.len() == postings.len(),
        r is Some ==> mutations_view(r->0@) == insert_plan(
            oid@,
            iid,
            terms_view(terms@),
            postings_view(postings@),
        ),
{
    if terms.len() != postings.len() {
        return None;
    }
    let ghost plan = insert_plan(oid@, iid, terms_view(terms@), postings_view(postings@));
    let mut r: Vec<IndexMutation> = Vec::new();
    r.push(IndexMutation::SetOIDToIID(oid.clone(), iid));
    r.push(IndexMutation::SetIIDToOID(iid, oid.clone()));
    r.push(IndexMutation::SetIIDToTerms(iid, copy_terms(terms)));
    let mut i: usize = 0;
    while i < terms.len()
        invariant
            i <= terms.len(),
            terms.len() == postings.len(),
            plan == insert_plan(oid@, iid, terms_view(terms@), postings_view(postings@)),
            plan.len() == 3 + terms.len(),
            r.len() == 3 + i,
            forall|j: int| 0 <= j < r.len() ==> #[trigger] r@[j]@ == plan[j],
        decreases terms.len() - i,
    {
        r.push(IndexMutation::SetTermToIIDs(terms[i].clone(), append_posting(&postings[i], iid)));
        i += 1;
    }
    assert(mutations_view(r@) =~= plan);
    Some(r)
}

/// The writes that delete object `oid`, known under `iid` with `terms`, where
/// `postings[i]` holds the postings of `terms[i]` as read before the delete
/// (empty where there were none). They are meant for one atomic batch;
/// `None` where the two lists differ in length.
pub fn plan_delete(
    oid: &StoreObjectOID,
    iid: StoreObjectIID,
    terms: &Vec<String>,
    postings: &Vec<Vec<StoreObjectIID>>,
) -> (r: Option<Vec<IndexMutation>>)
    ensures
        r is Some <==> terms.len() == postings.len(),
        r is Some ==> mutations_view(r->0@) == delete_plan(
            oid@,
            iid,
            terms_view(terms@),
            postings_view(postings@),
        ),
{
    if terms.len() != postings.len() {
        return None;
    }
    let ghost plan = delete_plan(oid@, iid, terms_view(terms@), postings_view(postings@));
    let mut r: Vec<IndexMutation> = Vec::new();
    r.push(IndexMutation::DeleteOIDToIID(oid.clone()));
    let mut i: usize = 0;
    while i < terms.len()
        invariant
            i <= terms.len(),
            terms.len() == postings.len(),
            plan == delete_plan(oid@, iid, terms_view(terms@), postings_view(postings@)),
            plan.len() == 3 + terms.len(),
            r.len() == 1 + i,
            forall|j: int| 0 <= j < r.len() ==> #[trigger] r@[j]@ == plan[j],
        decreases terms.len() - i,
    {
        r.push(removal(&terms[i], &postings[i], iid));
        i += 1;
    }
    r.push(IndexMutation::DeleteIIDToTerms(iid));
    r.push(IndexMutation::DeleteIIDToOID(iid));
    assert(mutations_view(r@) =~= plan);
    Some(r)
}

/// Reconciliation check of one identifier: `oid_of_iid` is what `IIDToOID`
/// holds for `iid`, `iid_of_oid` what `OIDToIID` holds for that object. The
/// identifier dangles when the first is there and the second does not lead back.
pub fn is_dangling_iid(
    iid: StoreObjectIID,
    oid_of_iid: &Option<StoreObjectOID>,
    iid_of_oid: &Option<StoreObjectIID>,
) -> (r: bool)
    ensures
        r == (oid_of_iid is Some && iid_of_oid != Some(iid)),
{
    match (oid_of_iid, iid_of_oid) {
        (Some(_), Some(back)) => *back != iid,
        (Some(_), None) => true,
        (None, _) => false,
    }
}

/// Reconciliation check of one posting: `oid_of_iid` is what `IIDToOID` holds
/// for the identifier that the postings reference. The posting is orphaned
/// when there is nothing.
pub fn is_orphan_posting(oid_of_iid: &Option<StoreObjectOID>) -> (r: bool)
    ensures
        r == (oid_of_iid is None),
{
    oid_of_iid.is_none()
}

proof fn lemma_postings_without_lacks(postings: Seq<u64>, iid: u64)
    ensures
        !postings_without(postings, iid).contains(iid),
    decreases postings.len(),
{
    if postings.len() > 0 {
        let kept = postings_without(postings.drop_last(), iid);
        lemma_postings_without_lacks(postings.drop_last(), iid);
        if postings.last() != iid {
            if kept.push(postings.last()).contains(iid) {
                let j = choose|j: int| 0 <= j < kept.len() + 1 && kept.push(postings.last())[j] == iid;
                assert(kept[j] == iid);
            }
        }
    }
}

proof fn lemma_removal_effect(s: IndexModel, term: Seq<char>, postings: Seq<u64>, iid: u64)
    ensures
        ({
            let r = apply_mutation(s, removal_of(term, postings, iid));
            &&& !postings_of(r, term).contains(iid)
            &&& forall|t: Seq<char>| t != term ==> postings_of(r, t) == postings_of(s, t)
            &&& r.oid_to_iid == s.oid_to_iid
            &&& r.iid_to_oid == s.iid_to_oid
            &&& r.iid_to_terms == s.iid_to_terms
        }),
{
    lemma_postings_without_lacks(postings, iid);
}

/// What the first `1 + k` writes of a delete leave (`k` removals done).
proof fn lemma_delete_prefix(
    s: IndexModel,
    oid: Seq<char>,
    iid: u64,
    terms: Seq<Seq<char>>,
    postings: Seq<Seq<u64>>,
    k: int,
)
    requires
        terms.len() == postings.len(),
        0 <= k <= terms.len(),
    ensures
        ({
            let sk = apply_mutations(s, delete_plan(oid, iid, terms, postings).take(1 + k));
            &&& sk.oid_to_iid == s.oid_to_iid.remove(oid)
            &&& sk.iid_to_oid == s.iid_to_oid
            &&& sk.iid_to_terms == s.iid_to_terms
            &&& forall|j: int| 0 <= j < k ==> !postings_of(sk, #[trigger] terms[j]).contains(iid)
        }),
    decreases k,
{
    let plan = delete_plan(oid, iid, terms, postings);
    if k == 0 {
        let first = plan.take(1);
        assert(first.drop_last() =~= Seq::<MutationView>::empty());
        assert(apply_mutations(s, first.drop_last()) == s);
        assert(first.last() == MutationView::DeleteOIDToIID(oid));
    } else {
        lemma_delete_prefix(s, oid, iid, terms, postings, k - 1);
        assert(plan.take(1 + k).drop_last() =~= plan.take(k));
        let prev = apply_mutations(s, plan.take(k));
        assert(plan.take(1 + k).last() == removal_of(terms[k - 1], postings[k - 1], iid));
        lemma_removal_effect(prev, terms[k - 1], postings[k - 1], iid);
        let sk = apply_mutations(s, plan.take(1 + k));
        assert(sk == apply_mutation(prev, removal_of(terms[k - 1], postings[k - 1], iid)));
        assert forall|j: int| 0 <= j < k implies !postings_of(sk, #[trigger] terms[j]).contains(
            iid,
        ) by {
            if terms[j] != terms[k - 1] {
                assert(postings_of(sk, terms[j]) == postings_of(prev, terms[j]));
            }
        }
    }
}

/// What the first `3 + k` writes of an insert leave (`k` appends done).
proof fn lemma_insert_prefix(
    s: IndexModel,
    oid: Seq<char>,
    iid: u64,
    terms: Seq<Seq<char>>,
    postings: Seq<Seq<u64>>,
    k: int,
)
    requires
        terms.len() == postings.len(),
        0 <= k <= terms.len(),
    ensures
        ({
            let sk = apply_mutations(s, insert_plan(oid, iid, terms, postings).take(3 + k));
            &&& sk.oid_to_iid == s.oid_to_iid.insert(oid, iid)
            &&& sk.iid_to_oid == s.iid_to_oid.insert(iid, oid)
            &&& sk.iid_to_terms == s.iid_to_terms.insert(iid, terms)
        }),
    decreases k,
{
    let plan = insert_plan(oid, iid, terms, postings);
    if k == 0 {
        assert(plan.take(3).drop_last() =~= plan.take(2));
        assert(plan.take(2).drop_last() =~= plan.take(1));
        assert(plan.take(1).drop_last() =~= Seq::<MutationView>::empty());
        assert(apply_mutations(s, plan.take(1).drop_last()) == s);
        let s1 = apply_mutation(s, MutationView::SetOIDToIID(oid, iid));
        assert(apply_mutations(s, plan.take(1)) == s1);
        let s2 = apply_mutation(s1, MutationView::SetIIDToOID(iid, oid));
        assert(apply_mutations(s, plan.take(2)) == s2);
        assert(apply_mutations(s, plan.take(3)) == apply_mutation(
            s2,
            MutationView::SetIIDToTerms(iid, terms),
        ));
    } else {
        lemma_insert_prefix(s, oid, iid, terms, postings, k - 1);
        assert(plan.take(3 + k).drop_last() =~= plan.take(2 + k));
        let prev = apply_mutations(s, plan.take(2 + k));
        let m = MutationView::SetTermToIIDs(terms[k - 1], postings[k - 1].push(iid));
        assert(plan.take(3 + k).last() == m);
        assert(apply_mutations(s, plan.take(3 + k)) == apply_mutation(prev, m));
    }
}

/// Where a delete leaves a state, by the number `k` of its writes applied.
/// None applied: the state is as it was. All applied: the object's identifier
/// pair and reverse index are gone, and no postings of its terms hold its
/// identifier. Anything in between holds a dangling identifier, which a
/// reconciliation pass detects.
pub proof fn lemma_delete_outcomes(s: IndexModel, oid: Seq<char>, k: int)
    requires
        s.oid_to_iid.contains_key(oid),
        s.iid_to_terms.contains_key(s.oid_to_iid[oid]),
        s.iid_to_oid.contains_key(s.oid_to_iid[oid]),
        s.iid_to_oid[s.oid_to_iid[oid]] == oid,
        0 <= k <= delete_plan_in(s, oid).len(),
    ensures
        ({
            let iid = s.oid_to_iid[oid];
            let terms = s.iid_to_terms[iid];
            let plan = delete_plan_in(s, oid);
            let sk = apply_mutations(s, plan.take(k));
            &&& k == 0 ==> sk == s
            &&& 0 < k < plan.len() ==> dangling_iid(sk, iid)
            &&& k == plan.len() ==> {
                &&& !sk.oid_to_iid.contains_key(oid)
                &&& !sk.iid_to_oid.contains_key(iid)
                &&& !sk.iid_to_terms.contains_key(iid)
                &&& forall|t: Seq<char>| terms.contains(t) ==> !postings_of(sk, t).contains(iid)
            }
        }),
{
    let iid = s.oid_to_iid[oid];
    let terms = s.iid_to_terms[iid];
    let postings = postings_read(s, terms);
    let plan = delete_plan(oid, iid, terms, postings);
    let n = terms.len() as int;
    let sk = apply_mutations(s, plan.take(k));
    if k == 0 {
        assert(plan.take(0) =~= Seq::<MutationView>::empty());
    } else if k <= n + 1 {
        lemma_delete_prefix(s, oid, iid, terms, postings, k - 1);
    } else {
        lemma_delete_prefix(s, oid, iid, terms, postings, n);
        let s1 = apply_mutations(s, plan.take(n + 1));
        assert(plan.take(n + 2).drop_last() =~= plan.take(n + 1));
        assert(plan.take(n + 2).last() == MutationView::DeleteIIDToTerms(iid));
        let s2 = apply_mutations(s, plan.take(n + 2));
        assert(s2 == apply_mutation(s1, MutationView::DeleteIIDToTerms(iid)));
        if k == n + 3 {
            assert(plan.take(n + 3).drop_last() =~= plan.take(n + 2));
            assert(plan.take(n + 3).last() == MutationView::DeleteIIDToOID(iid));
            assert(sk == apply_mutation(s2, MutationView::DeleteIIDToOID(iid)));
            assert(sk.term_to_iids == s1.term_to_iids);
            assert forall|t: Seq<char>| terms.contains(t) implies !postings_of(sk, t).contains(
                iid,
            ) by {
                let j = choose|j: int| 0 <= j < n && terms[j] == t;
                assert(!postings_of(s1, terms[j]).contains(iid));
            }
        }
    }
}

/// Inserting object `oid` under `iid` with `terms`, then deleting `oid`,
/// leaves no trace of `iid` in the postings of any of `terms`, and no
/// `OIDToIID`, `IIDToOID` or `IIDToTerms` entry for the object.
pub proof fn lemma_insert_then_delete(
    s: IndexModel,
    oid: Seq<char>,
    iid: u64,
    terms: Seq<Seq<char>>,
)
    ensures
        ({
            let s1 = apply_mutations(s, insert_plan_in(s, oid, iid, terms));
            let s2 = apply_mutations(s1, delete_plan_in(s1, oid));
            &&& forall|t: Seq<char>| terms.contains(t) ==> !postings_of(s2, t).contains(iid)
            &&& !s2.oid_to_iid.contains_key(oid)
            &&& !s2.iid_to_oid.contains_key(iid)
            &&& !s2.iid_to_terms.contains_key(iid)
        }),
{
    let postings = postings_read(s, terms);
    let ins = insert_plan(oid, iid, terms, postings);
    lemma_insert_prefix(s, oid, iid, terms, postings, terms.len() as int);
    assert(ins.take(3 + terms.len() as int) =~= ins);
    let s1 = apply_mutations(s, ins);
    let del = delete_plan_in(s1, oid);
    lemma_delete_outcomes(s1, oid, del.len() as int);
    assert(del.take(del.len() as int) =~= del);
}

/// The reconciliation check, run on reads taken from a state, detects exactly
/// its dangling identifiers: `oid_of_iid` is what `IIDToOID` holds for `iid`,
/// and `iid_of_oid` what `OIDToIID` holds for that object.
pub proof fn lemma_dangling_check_matches(
    s: IndexModel,
    iid: u64,
    oid_of_iid: Option<StoreObjectOID>,
    iid_of_oid: Option<StoreObjectIID>,
)
    requires
        oid_of_iid is Some <==> s.iid_to_oid.contains_key(iid),
        oid_of_iid is Some ==> oid_of_iid->0@ == s.iid_to_oid[iid],
        oid_of_iid is Some ==> (iid_of_oid is Some <==> s.oid_to_iid.contains_key(
            s.iid_to_oid[iid],
        )),
        oid_of_iid is Some && iid_of_oid is Some ==> iid_of_oid->0 == s.oid_to_iid[s.iid_to_oid[iid]],
    ensures
        (oid_of_iid is Some && iid_of_oid != Some(iid)) == dangling_iid(s, iid),
{
}

} // verus!
