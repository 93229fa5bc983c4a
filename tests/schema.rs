use std::collections::HashMap;

use sonic_store::schema::{
    append_posting, is_dangling_iid, is_orphan_posting, plan_delete, plan_insert, remove_posting,
    IndexMutation,
};

#[derive(Default, Clone, PartialEq, Debug)]
struct Tables {
    term_to_iids: HashMap<String, Vec<u64>>,
    oid_to_iid: HashMap<String, u64>,
    iid_to_oid: HashMap<u64, String>,
    iid_to_terms: HashMap<u64, Vec<String>>,
}

fn apply(t: &mut Tables, ms: &[IndexMutation]) {
    for m in ms {
        match m {
            IndexMutation::SetTermToIIDs(k, v) => {
                t.term_to_iids.insert(k.clone(), v.clone());
            }
            IndexMutation::DeleteTermToIIDs(k) => {
                t.term_to_iids.remove(k);
            }
            IndexMutation::SetOIDToIID(k, v) => {
                t.oid_to_iid.insert(k.clone(), *v);
            }
            IndexMutation::DeleteOIDToIID(k) => {
                t.oid_to_iid.remove(k);
            }
            IndexMutation::SetIIDToOID(k, v) => {
                t.iid_to_oid.insert(*k, v.clone());
            }
            IndexMutation::DeleteIIDToOID(k) => {
                t.iid_to_oid.remove(k);
            }
            IndexMutation::SetIIDToTerms(k, v) => {
                t.iid_to_terms.insert(*k, v.clone());
            }
            IndexMutation::DeleteIIDToTerms(k) => {
                t.iid_to_terms.remove(k);
            }
        }
    }
}

fn postings(t: &Tables, terms: &[String]) -> Vec<Vec<u64>> {
    terms
        .iter()
        .map(|x| t.term_to_iids.get(x).cloned().unwrap_or_default())
        .collect()
}

fn insert(t: &mut Tables, oid: &str, iid: u64, terms: &[&str]) {
    let terms: Vec<String> = terms.iter().map(|s| s.to_string()).collect();
    let plan = plan_insert(&oid.to_string(), iid, &terms, &postings(t, &terms)).unwrap();
    apply(t, &plan);
}

fn delete_plan_for(t: &Tables, oid: &str) -> Vec<IndexMutation> {
    let iid = t.oid_to_iid[oid];
    let terms = t.iid_to_terms[&iid].clone();
    plan_delete(&oid.to_string(), iid, &terms, &postings(t, &terms)).unwrap()
}

#[test]
fn insert_then_delete_leaves_no_trace() {
    let mut t = Tables::default();
    insert(&mut t, "other", 1, &["hello", "world"]);
    insert(&mut t, "conversation:6501e83a", 2, &["hello", "there", "hello"]);
    assert_eq!(t.term_to_iids["hello"], vec![1, 2]);
    assert_eq!(t.oid_to_iid["conversation:6501e83a"], 2);
    assert_eq!(t.iid_to_oid[&2], "conversation:6501e83a");

    let plan = delete_plan_for(&t, "conversation:6501e83a");
    apply(&mut t, &plan);
    assert_eq!(t.term_to_iids["hello"], vec![1]);
    assert!(!t.term_to_iids.contains_key("there"));
    assert!(!t.oid_to_iid.contains_key("conversation:6501e83a"));
    assert!(!t.iid_to_oid.contains_key(&2));
    assert!(!t.iid_to_terms.contains_key(&2));
    assert_eq!(t.iid_to_oid[&1], "other");
}

#[test]
fn every_partial_delete_is_detectable() {
    let mut t = Tables::default();
    insert(&mut t, "a", 7, &["x", "y"]);
    let before = t.clone();
    let plan = delete_plan_for(&t, "a");
    assert_eq!(plan.len(), 5);
    for k in 0..=plan.len() {
        let mut partial = before.clone();
        apply(&mut partial, &plan[..k]);
        let oid_of_iid = partial.iid_to_oid.get(&7).cloned();
        let iid_of_oid = oid_of_iid
            .as_ref()
            .and_then(|o| partial.oid_to_iid.get(o).cloned());
        let dangling = is_dangling_iid(7, &oid_of_iid, &iid_of_oid);
        if k == 0 {
            assert_eq!(partial, before);
            assert!(!dangling);
        } else if k < plan.len() {
            assert!(dangling, "prefix {} not detected", k);
        } else {
            assert!(!dangling);
            assert!(partial.iid_to_oid.is_empty() && partial.term_to_iids.is_empty());
        }
    }
}

#[test]
fn delete_plan_order() {
    let terms = vec!["x".to_string()];
    let plan = plan_delete(&"a".to_string(), 7, &terms, &vec![vec![7, 8]]).unwrap();
    assert_eq!(plan.len(), 4);
    assert!(matches!(&plan[0], IndexMutation::DeleteOIDToIID(o) if o == "a"));
    assert!(matches!(&plan[1], IndexMutation::SetTermToIIDs(t, p) if t == "x" && *p == vec![8]));
    assert!(matches!(plan[2], IndexMutation::DeleteIIDToTerms(7)));
    assert!(matches!(plan[3], IndexMutation::DeleteIIDToOID(7)));
}

#[test]
fn insert_plan_order() {
    let terms = vec!["x".to_string(), "y".to_string()];
    let plan = plan_insert(&"a".to_string(), 9, &terms, &vec![vec![], vec![3]]).unwrap();
    assert_eq!(plan.len(), 5);
    assert!(matches!(&plan[0], IndexMutation::SetOIDToIID(o, 9) if o == "a"));
    assert!(matches!(&plan[1], IndexMutation::SetIIDToOID(9, o) if o == "a"));
    assert!(matches!(&plan[2], IndexMutation::SetIIDToTerms(9, ts) if *ts == terms));
    assert!(matches!(&plan[3], IndexMutation::SetTermToIIDs(t, p) if t == "x" && *p == vec![9]));
    assert!(matches!(&plan[4], IndexMutation::SetTermToIIDs(t, p) if t == "y" && *p == vec![3, 9]));
}

#[test]
fn postings_edit() {
    assert_eq!(remove_posting(&vec![1, 5, 2, 5], 5), vec![1, 2]);
    assert_eq!(remove_posting(&vec![5], 5), Vec::<u64>::new());
    assert_eq!(remove_posting(&vec![], 5), Vec::<u64>::new());
    assert_eq!(append_posting(&vec![1, 2], 3), vec![1, 2, 3]);
    assert_eq!(append_posting(&vec![], 0), vec![0]);
}

#[test]
fn reconciliation_checks() {
    assert!(!is_dangling_iid(3, &Some("a".to_string()), &Some(3)));
    assert!(is_dangling_iid(3, &Some("a".to_string()), &Some(4)));
    assert!(is_dangling_iid(3, &Some("a".to_string()), &None));
    assert!(!is_dangling_iid(3, &None, &None));
    assert!(is_orphan_posting(&None));
    assert!(!is_orphan_posting(&Some("a".to_string())));
}

#[test]
fn plans_need_postings_for_each_term() {
    let terms = vec!["x".to_string(), "y".to_string()];
    assert!(plan_insert(&"a".to_string(), 1, &terms, &vec![vec![]]).is_none());
    assert!(plan_delete(&"a".to_string(), 1, &terms, &vec![]).is_none());
}
