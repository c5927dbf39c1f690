use vstd::prelude::*;
use vstd::string::StringExecFns;
use crate::models::Bug;
use crate::models::BugView;

verus! {

// ---------------------------------------------------------------------------
// The allow-list and its meaning
// ---------------------------------------------------------------------------

/// The fixed allow-list of filter keys a caller may constrain a listing by.
/// Every other key is silently ignored.
pub open spec fn recognized_key(k: Seq<char>) -> bool {
    k == "status"@ || k == "severity"@ || k == "project_id"@
}

/// The pairs of the criteria whose key is on the allow-list, in input order.
pub open spec fn recognized_pairs(c: Seq<(Seq<char>, Seq<char>)>) -> Seq<(Seq<char>, Seq<char>)> {
    c.filter(|p: (Seq<char>, Seq<char>)| recognized_key(p.0))
}

/// Whether one criteria pair constrains a record. An unrecognized key never
/// does. A recognized key demands equality with the named column; a record
/// without an owning project matches no project identifier.
pub open spec fn pair_matches(b: BugView, p: (Seq<char>, Seq<char>)) -> bool {
    if p.0 == "status"@ {
        b.status == p.1
    } else if p.0 == "severity"@ {
        b.severity == p.1
    } else if p.0 == "project_id"@ {
        b.project_id == Some(p.1)
    } else {
        true
    }
}

/// Whether a record satisfies a whole criteria sequence: the conjunction of
/// all its pairs, so an empty criteria sequence matches every record.
pub open spec fn bug_matches(b: BugView, c: Seq<(Seq<char>, Seq<char>)>) -> bool {
    forall|i: int| 0 <= i < c.len() ==> pair_matches(b, #[trigger] c[i])
}

// ---------------------------------------------------------------------------
// The predicate fragment and its parameters
// ---------------------------------------------------------------------------

/// The parameterized equality condition contributed by one recognized key.
/// The caller's value never appears here: it is bound to the placeholder.
pub open spec fn condition_for(k: Seq<char>) -> Seq<char> {
    if k == "status"@ {
        "status = ?"@
    } else if k == "severity"@ {
        "severity = ?"@
    } else {
        "project_id = ?"@
    }
}

/// The predicate fragment for a sequence of recognized keys: empty when
/// there is no key, otherwise a WHERE clause with one condition per key,
/// joined by AND in order. It is a function of the keys alone, so caller
/// values cannot reach the query text.
pub open spec fn clause_of(keys: Seq<Seq<char>>) -> Seq<char>
    decreases keys.len(),
{
    if keys.len() == 0 {
        Seq::empty()
    } else {
        let sep: Seq<char> = if keys.len() == 1 {
            " WHERE "@
        } else {
            " AND "@
        };
        clause_of(keys.drop_last()) + sep + condition_for(keys.last())
    }
}

/// The recognized keys of the criteria, in input order.
pub open spec fn filter_keys(c: Seq<(Seq<char>, Seq<char>)>) -> Seq<Seq<char>> {
    recognized_pairs(c).map_values(|p: (Seq<char>, Seq<char>)| p.0)
}

/// The predicate fragment built for the criteria.
pub open spec fn filter_clause(c: Seq<(Seq<char>, Seq<char>)>) -> Seq<char> {
    clause_of(filter_keys(c))
}

/// The ordered values bound to the placeholders, one per recognized pair.
pub open spec fn filter_params(c: Seq<(Seq<char>, Seq<char>)>) -> Seq<Seq<char>> {
    recognized_pairs(c).map_values(|p: (Seq<char>, Seq<char>)| p.1)
}

/// A parameterized predicate over bug records: a fragment to append to a
/// base select-all statement, plus the values to bind to its placeholders.
pub struct FilterQuery {
    pub clause: String,
    pub params: Vec<String>,
}

/// Translates caller-supplied key/value criteria of arbitrary origin into a
/// parameterized predicate. Only allow-listed keys contribute a condition;
/// each contributes exactly one placeholder and one bound value, in input
/// order; the query text is determined by the recognized keys alone.
pub fn build_filter(criteria: &Vec<(String, String)>) -> (fq: FilterQuery)
    ensures
        fq.clause@ == filter_clause(criteria.deep_view()),
        fq.params.deep_view() == filter_params(criteria.deep_view()),
{
    let ghost dv: Seq<(Seq<char>, Seq<char>)> = criteria.deep_view();
    let key_status = String::from_str("status");
    let key_severity = String::from_str("severity");
    let key_project = String::from_str("project_id");
    let mut clause = String::new();
    let mut params: Vec<String> = Vec::new();
    let mut i: usize = 0;
    while i < criteria.len()
        invariant
            i <= criteria.len(),
            dv == criteria.deep_view(),
            dv.len() == criteria.len(),
            key_status@ == "status"@,
            key_severity@ == "severity"@,
            key_project@ == "project_id"@,
            clause@ == filter_clause(dv.take(i as int)),
            params.deep_view() == filter_params(dv.take(i as int)),
        decreases criteria.len() - i,
    {
        broadcast use Seq::lemma_take_succ_push;
        broadcast use Seq::lemma_filter_push;
        broadcast use Seq::lemma_push_map_commute;

        let pair = &criteria[i];
        proof {
            assert(dv[i as int] == (pair.0@, pair.1@));
            assert(dv.take(i + 1) == dv.take(i as int).push(dv[i as int]));
            assert(params.deep_view().len() == params@.len());
            assert(filter_keys(dv.take(i as int)).len() == recognized_pairs(
                dv.take(i as int),
            ).len());
            assert(filter_params(dv.take(i as int)).len() == recognized_pairs(
                dv.take(i as int),
            ).len());
        }
        let cond: Option<&str> = if pair.0 == key_status {
            Some("status = ?")
        } else if pair.0 == key_severity {
            Some("severity = ?")
        } else if pair.0 == key_project {
            Some("project_id = ?")
        } else {
            None
        };
        match cond {
            Some(c) => {
                proof {
                    assert(recognized_key(dv[i as int].0));
                    assert(condition_for(dv[i as int].0) == c@);
                    assert(recognized_pairs(dv.take(i + 1)) == recognized_pairs(
                        dv.take(i as int),
                    ).push(dv[i as int]));
                    assert(filter_keys(dv.take(i + 1)) =~= filter_keys(dv.take(i as int)).push(
                        dv[i as int].0,
                    ));
                    assert(filter_keys(dv.take(i + 1)).drop_last() =~= filter_keys(
                        dv.take(i as int),
                    ));
                }
                if params.is_empty() {
                    proof {
                        assert(filter_keys(dv.take(i as int)).len() == 0);
                        assert(filter_keys(dv.take(i + 1)).len() == 1);
                    }
                    clause.append(" WHERE ");
                } else {
                    proof {
                        assert(filter_keys(dv.take(i + 1)).len() >= 2);
                    }
                    clause.append(" AND ");
                }
                clause.append(c);
                params.push(pair.1.clone());
                proof {
                    assert(clause@ =~= filter_clause(dv.take(i + 1)));
                    assert(params.deep_view() =~= filter_params(dv.take(i + 1)));
                }
            },
            None => {
                proof {
                    assert(!recognized_key(dv[i as int].0));
                    assert(recognized_pairs(dv.take(i + 1)) == recognized_pairs(
                        dv.take(i as int),
                    ));
                    assert(params.deep_view() =~= filter_params(dv.take(i + 1)));
                }
            },
        }
        i = i + 1;
    }
    proof {
        assert(dv.take(criteria.len() as int) == dv);
    }
    FilterQuery { clause, params }
}

// ---------------------------------------------------------------------------
// Laws of the builder
// ---------------------------------------------------------------------------

/// How many times a character occurs in a sequence.
pub open spec fn count_char(s: Seq<char>, c: char) -> nat
    decreases s.len(),
{
    if s.len() == 0 {
        0
    } else {
        count_char(s.drop_last(), c) + (if s.last() == c {
            1nat
        } else {
            0nat
        })
    }
}

proof fn lemma_count_char_add(a: Seq<char>, b: Seq<char>, c: char)
    ensures
        count_char(a + b, c) == count_char(a, c) + count_char(b, c),
    decreases b.len(),
{
    if b.len() == 0 {
        assert(a + b =~= a);
    } else {
        lemma_count_char_add(a, b.drop_last(), c);
        assert((a + b).drop_last() =~= a + b.drop_last());
        assert((a + b).last() == b.last());
    }
}

proof fn lemma_literal_counts()
    ensures
        count_char(" WHERE "@, '?') == 0,
        count_char(" AND "@, '?') == 0,
        count_char("status = ?"@, '?') == 1,
        count_char("severity = ?"@, '?') == 1,
        count_char("project_id = ?"@, '?') == 1,
{
    reveal_strlit(" WHERE ");
    reveal_strlit(" AND ");
    reveal_strlit("status = ?");
    reveal_strlit("severity = ?");
    reveal_strlit("project_id = ?");
    reveal_with_fuel(count_char, 16);
}

proof fn lemma_clause_placeholders(keys: Seq<Seq<char>>)
    ensures
        count_char(clause_of(keys), '?') == keys.len(),
    decreases keys.len(),
{
    lemma_literal_counts();
    if keys.len() > 0 {
        let sep: Seq<char> = if keys.len() == 1 {
            " WHERE "@
        } else {
            " AND "@
        };
        lemma_clause_placeholders(keys.drop_last());
        lemma_count_char_add(clause_of(keys.drop_last()), sep, '?');
        lemma_count_char_add(clause_of(keys.drop_last()) + sep, condition_for(keys.last()), '?');
    }
}

/// The number of placeholders in the built clause equals the number of
/// bound parameters: every recognized pair contributes exactly one `?` and
/// exactly one value, in the same order.
pub proof fn lemma_placeholders_match_params(c: Seq<(Seq<char>, Seq<char>)>)
    ensures
        count_char(filter_clause(c), '?') == filter_params(c).len(),
{
    lemma_clause_placeholders(filter_keys(c));
}

/// A pair with an unrecognized key is ignored entirely: the built clause,
/// the bound parameters and the set of matching records are those of the
/// criteria with that pair left out.
pub proof fn lemma_unrecognized_pair_ignored(
    b: BugView,
    c: Seq<(Seq<char>, Seq<char>)>,
    i: int,
)
    requires
        0 <= i < c.len(),
        !recognized_key(c[i].0),
    ensures
        filter_clause(c) == filter_clause(c.remove(i)),
        filter_params(c) == filter_params(c.remove(i)),
        bug_matches(b, c) == bug_matches(b, c.remove(i)),
{
    broadcast use Seq::filter_distributes_over_add;

    let pred = |p: (Seq<char>, Seq<char>)| recognized_key(p.0);
    let front = c.subrange(0, i);
    let back = c.subrange(i + 1, c.len() as int);
    let mid = seq![c[i]];
    assert(c =~= front + mid + back);
    assert(c.remove(i) =~= front + back);
    assert(recognized_pairs(front + mid + back) == recognized_pairs(front + mid)
        + recognized_pairs(back));
    assert(recognized_pairs(front + mid) == recognized_pairs(front) + recognized_pairs(mid));
    assert(recognized_pairs(mid) =~= Seq::<(Seq<char>, Seq<char>)>::empty()) by {
        reveal(Seq::filter);
        assert(mid.len() == 1);
        assert(mid.last() == c[i]);
        assert(!pred(mid.last()));
        assert(mid.drop_last() =~= Seq::<(Seq<char>, Seq<char>)>::empty());
        assert(mid.drop_last() == Seq::<(Seq<char>, Seq<char>)>::empty());
        assert(recognized_pairs(Seq::<(Seq<char>, Seq<char>)>::empty()) =~= Seq::<
            (Seq<char>, Seq<char>),
        >::empty());
    }
    assert(recognized_pairs(c) =~= recognized_pairs(c.remove(i)));
    assert(bug_matches(b, c) == bug_matches(b, c.remove(i))) by {
        if bug_matches(b, c) {
            assert forall|j: int| 0 <= j < c.remove(i).len() implies pair_matches(
                b,
                #[trigger] c.remove(i)[j],
            ) by {
                if j < i {
                    assert(c.remove(i)[j] == c[j]);
                } else {
                    assert(c.remove(i)[j] == c[j + 1]);
                }
            }
        }
        if bug_matches(b, c.remove(i)) {
            assert forall|j: int| 0 <= j < c.len() implies pair_matches(
                b,
                #[trigger] c[j],
            ) by {
                if j < i {
                    assert(c.remove(i)[j] == c[j]);
                } else if j == i {
                    assert(pair_matches(b, c[i]));
                } else {
                    assert(c.remove(i)[j - 1] == c[j]);
                }
            }
        }
    }
}

/// Matching is insensitive to the order of the criteria: two criteria
/// sequences that contain the same pairs constrain records identically.
pub proof fn lemma_matches_order_insensitive(
    b: BugView,
    c1: Seq<(Seq<char>, Seq<char>)>,
    c2: Seq<(Seq<char>, Seq<char>)>,
)
    requires
        forall|p: (Seq<char>, Seq<char>)| c1.contains(p) <==> c2.contains(p),
    ensures
        bug_matches(b, c1) == bug_matches(b, c2),
{
    if bug_matches(b, c1) {
        assert forall|i: int| 0 <= i < c2.len() implies pair_matches(b, #[trigger] c2[i]) by {
            assert(c2.contains(c2[i]));
            assert(c1.contains(c2[i]));
            let j = choose|j: int| 0 <= j < c1.len() && c1[j] == c2[i];
            assert(pair_matches(b, c1[j]));
        }
    }
    if bug_matches(b, c2) {
        assert forall|i: int| 0 <= i < c1.len() implies pair_matches(b, #[trigger] c1[i]) by {
            assert(c1.contains(c1[i]));
            assert(c2.contains(c1[i]));
            let j = choose|j: int| 0 <= j < c2.len() && c2[j] == c1[i];
            assert(pair_matches(b, c2[j]));
        }
    }
}

/// Criteria combine conjunctively: a record matches the concatenation of
/// two criteria sequences exactly when it matches both.
pub proof fn lemma_matches_concat(
    b: BugView,
    c1: Seq<(Seq<char>, Seq<char>)>,
    c2: Seq<(Seq<char>, Seq<char>)>,
)
    ensures
        bug_matches(b, c1 + c2) == (bug_matches(b, c1) && bug_matches(b, c2)),
{
    let c = c1 + c2;
    if bug_matches(b, c) {
        assert forall|i: int| 0 <= i < c1.len() implies pair_matches(b, #[trigger] c1[i]) by {
            assert(c[i] == c1[i]);
        }
        assert forall|i: int| 0 <= i < c2.len() implies pair_matches(b, #[trigger] c2[i]) by {
            assert(c[c1.len() + i] == c2[i]);
        }
    }
    if bug_matches(b, c1) && bug_matches(b, c2) {
        assert forall|i: int| 0 <= i < c.len() implies pair_matches(b, #[trigger] c[i]) by {
            if i < c1.len() {
                assert(c[i] == c1[i]);
            } else {
                assert(c[i] == c2[i - c1.len()]);
            }
        }
    }
}

/// What a status/severity filter stands for: exactly the records whose
/// status and severity both equal the given values.
pub proof fn lemma_status_severity_conjunction(b: BugView, s: Seq<char>, v: Seq<char>)
    ensures
        bug_matches(b, seq![("status"@, s), ("severity"@, v)]) <==> (b.status == s && b.severity
            == v),
{
    reveal_strlit("status");
    reveal_strlit("severity");
    let c = seq![("status"@, s), ("severity"@, v)];
    assert(c[0] == ("status"@, s));
    assert(c[1] == ("severity"@, v));
    assert("status"@.len() == 6);
    assert("severity"@.len() == 8);
    assert("status"@ != "severity"@);
    assert(pair_matches(b, c[0]) == (b.status == s));
    assert(pair_matches(b, c[1]) == (b.severity == v));
    if pair_matches(b, c[0]) && pair_matches(b, c[1]) {
        assert forall|i: int| 0 <= i < c.len() implies pair_matches(b, #[trigger] c[i]) by {
            if i == 0 {
            } else {
                assert(i == 1);
            }
        }
    }
}

// ---------------------------------------------------------------------------
// Matching a record against criteria
// ---------------------------------------------------------------------------

/// Decides whether a bug record satisfies every recognized pair of the
/// criteria: the executable form of the conjunction the built filter stands
/// for.
pub fn bug_satisfies(b: &Bug, criteria: &Vec<(String, String)>) -> (r: bool)
    ensures
        r == bug_matches(b@, criteria.deep_view()),
{
    let ghost dv: Seq<(Seq<char>, Seq<char>)> = criteria.deep_view();
    let key_status = String::from_str("status");
    let key_severity = String::from_str("severity");
    let key_project = String::from_str("project_id");
    let mut i: usize = 0;
    while i < criteria.len()
        invariant
            i <= criteria.len(),
            dv == criteria.deep_view(),
            dv.len() == criteria.len(),
            key_status@ == "status"@,
            key_severity@ == "severity"@,
            key_project@ == "project_id"@,
            forall|j: int| 0 <= j < i ==> pair_matches(b@, #[trigger] dv[j]),
        decreases criteria.len() - i,
    {
        let pair = &criteria[i];
        proof {
            assert(dv[i as int] == (pair.0@, pair.1@));
        }
        let ok: bool = if pair.0 == key_status {
            b.status == pair.1
        } else if pair.0 == key_severity {
            b.severity == pair.1
        } else if pair.0 == key_project {
            match &b.project_id {
                Some(p) => *p == pair.1,
                None => false,
            }
        } else {
            true
        };
        if !ok {
            proof {
                assert(!pair_matches(b@, dv[i as int]));
            }
            return false;
        }
        proof {
            assert(pair_matches(b@, dv[i as int]));
        }
        i = i + 1;
    }
    true
}

} // verus!
