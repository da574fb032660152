use vstd::prelude::*;
use vstd::string::*;

use crate::operation::{
    document_of, is_selected, opt_str_view, root_field, OperationDescriptor, OperationKind,
};

verus! {

/// The predicates this protocol asserts to the policy engine.
#[derive(Debug, Clone, Copy, PartialEq, Eq, Structural)]
pub enum FactKind {
    Query,
    Mutation,
    Subscription,
    Subgraph,
}

/// Whether root fields of a subscription become facts. Deployments whose
/// policies do not speak of subscriptions choose `Omit`; the choice is made
/// once, in configuration, never by accident of a code path.
#[derive(Debug, Clone, Copy, PartialEq, Eq, Structural)]
pub enum SubscriptionFacts {
    Assert,
    Omit,
}

/// A ground predicate of one string argument, such as `query("me")`.
#[derive(Debug, Clone)]
pub struct Fact {
    pub kind: FactKind,
    pub value: String,
}

impl Fact {
    pub open spec fn view(&self) -> (FactKind, Seq<char>) {
        (self.kind, self.value@)
    }
}

pub open spec fn facts_view(v: Seq<Fact>) -> Seq<(FactKind, Seq<char>)> {
    v.map_values(|f: Fact| f.view())
}

pub open spec fn fact_kind_of(k: OperationKind) -> FactKind {
    match k {
        OperationKind::Query => FactKind::Query,
        OperationKind::Mutation => FactKind::Mutation,
        OperationKind::Subscription => FactKind::Subscription,
    }
}

/// Root fields of an operation of kind `k` are asserted under `mode`.
pub open spec fn emits(k: OperationKind, mode: SubscriptionFacts) -> bool {
    !(k == OperationKind::Subscription && mode == SubscriptionFacts::Omit)
}

/// The facts owed for an operation of kind `k` with root field names `names`,
/// seen by the service `service` if one is named.
pub open spec fn expected_fact(
    k: OperationKind,
    names: Seq<Seq<char>>,
    mode: SubscriptionFacts,
    service: Option<Seq<char>>,
    f: (FactKind, Seq<char>),
) -> bool {
    ||| (emits(k, mode) && f.0 == fact_kind_of(k) && names.contains(f.1))
    ||| (service is Some && f == (FactKind::Subgraph, service->Some_0))
}

/// `r` is a fact list owed for `desc`: every owed fact once, nothing else.
pub open spec fn facts_for(
    desc: OperationDescriptor,
    mode: SubscriptionFacts,
    service: Option<Seq<char>>,
    r: Seq<(FactKind, Seq<char>)>,
) -> bool {
    &&& r.no_duplicates()
    &&& forall|f: (FactKind, Seq<char>)|
        r.contains(f) <==> expected_fact(desc.kind, desc.field_names(), mode, service, f)
}

/// The name under which the policy language knows a fact's predicate.
pub open spec fn predicate_name(k: FactKind) -> Seq<char> {
    match k {
        FactKind::Query => seq!['q', 'u', 'e', 'r', 'y'],
        FactKind::Mutation => seq!['m', 'u', 't', 'a', 't', 'i', 'o', 'n'],
        FactKind::Subscription => seq![
            's', 'u', 'b', 's', 'c', 'r', 'i', 'p', 't', 'i', 'o', 'n'
        ],
        FactKind::Subgraph => seq!['s', 'u', 'b', 'g', 'r', 'a', 'p', 'h'],
    }
}

impl FactKind {
    pub fn predicate(&self) -> (r: &'static str)
        ensures
            r@ == predicate_name(*self),
    {
        match self {
            FactKind::Query => {
                proof { reveal_strlit("query"); }
                "query"
            },
            FactKind::Mutation => {
                proof { reveal_strlit("mutation"); }
                "mutation"
            },
            FactKind::Subscription => {
                proof { reveal_strlit("subscription"); }
                "subscription"
            },
            FactKind::Subgraph => {
                proof { reveal_strlit("subgraph"); }
                "subgraph"
            },
        }
    }
}

fn kind_to_fact(k: OperationKind) -> (r: FactKind)
    ensures
        r == fact_kind_of(k),
{
    match k {
        OperationKind::Query => FactKind::Query,
        OperationKind::Mutation => FactKind::Mutation,
        OperationKind::Subscription => FactKind::Subscription,
    }
}

fn has_fact(facts: &Vec<Fact>, kind: FactKind, value: &String) -> (r: bool)
    ensures
        r == facts_view(facts@).contains((kind, value@)),
{
    let mut i: usize = 0;
    while i < facts.len()
        invariant
            i <= facts@.len(),
            forall|j: int| 0 <= j < i ==> #[trigger] facts_view(facts@)[j] != (kind, value@),
        decreases facts@.len() - i,
    {
        assert(facts_view(facts@)[i as int] == facts@[i as int].view());
        if facts[i].kind == kind && facts[i].value == *value {
            assert(facts_view(facts@)[i as int] == (kind, value@));
            return true;
        }
        i += 1;
    }
    false
}

/// Derives the facts of one request: one fact per distinct root field name,
/// tagged with the operation's kind (none for a subscription under `Omit`),
/// and `subgraph(<service>)` when a downstream service is named. The result
/// holds no fact twice.
pub fn build_facts(desc: &OperationDescriptor, mode: SubscriptionFacts, service: Option<&str>) -> (r:
    Vec<Fact>)
    ensures
        facts_for(*desc, mode, opt_str_view(service), facts_view(r@)),
{
    let mut r: Vec<Fact> = Vec::new();
    let fk = kind_to_fact(desc.kind);
    let names = Ghost(desc.field_names());
    if mode == SubscriptionFacts::Assert || desc.kind != OperationKind::Subscription {
        let mut i: usize = 0;
        while i < desc.root_fields.len()
            invariant
                i <= desc.root_fields@.len(),
                fk == fact_kind_of(desc.kind),
                names@ == desc.field_names(),
                facts_view(r@).no_duplicates(),
                forall|f: (FactKind, Seq<char>)|
                    facts_view(r@).contains(f) <==> (f.0 == fk && names@.subrange(
                        0,
                        i as int,
                    ).contains(f.1)),
            decreases desc.root_fields@.len() - i,
        {
            let name = &desc.root_fields[i].name;
            let ghost before = facts_view(r@);
            let ghost prefix = names@.subrange(0, i as int);
            let ghost next = names@.subrange(0, i + 1);
            assert(names@[i as int] == name@);
            assert(next =~= prefix.push(name@));
            if !has_fact(&r, fk, name) {
                r.push(Fact { kind: fk, value: name.clone() });
                assert(facts_view(r@) =~= before.push((fk, name@)));
                assert forall|f: (FactKind, Seq<char>)|
                    facts_view(r@).contains(f) <==> (f.0 == fk && next.contains(f.1)) by {
                    if facts_view(r@).contains(f) {
                        let j = choose|j: int| 0 <= j < facts_view(r@).len() && facts_view(r@)[j] == f;
                        if j < before.len() {
                            assert(before[j] == f);
                            assert(before.contains(f));
                            let k = choose|k: int| 0 <= k < prefix.len() && prefix[k] == f.1;
                            assert(next[k] == f.1);
                        } else {
                            assert(next[i as int] == f.1);
                        }
                    }
                    if f.0 == fk && next.contains(f.1) {
                        let k = choose|k: int| 0 <= k < next.len() && next[k] == f.1;
                        if k < i {
                            assert(prefix[k] == f.1);
                            assert(before.contains(f));
                            let j = choose|j: int| 0 <= j < before.len() && before[j] == f;
                            assert(facts_view(r@)[j] == f);
                        } else {
                            assert(facts_view(r@)[before.len() as int] == f);
                        }
                    }
                }
            } else {
                assert forall|f: (FactKind, Seq<char>)|
                    facts_view(r@).contains(f) <==> (f.0 == fk && next.contains(f.1)) by {
                    if f.0 == fk && next.contains(f.1) {
                        let k = choose|k: int| 0 <= k < next.len() && next[k] == f.1;
                        if k < i {
                            assert(prefix[k] == f.1);
                        }
                    }
                    if facts_view(r@).contains(f) {
                        let k = choose|k: int| 0 <= k < prefix.len() && prefix[k] == f.1;
                        assert(next[k] == f.1);
                    }
                }
            }
            i += 1;
        }
        assert(names@.subrange(0, i as int) =~= names@);
    }
    let ghost before = facts_view(r@);
    assert forall|f: (FactKind, Seq<char>)|
        before.contains(f) <==> (emits(desc.kind, mode) && f.0 == fk && names@.contains(f.1)) by {
        if !emits(desc.kind, mode) {
            assert(before.len() == 0);
        }
    }
    assert(fk != FactKind::Subgraph);
    match service {
        Some(s) => {
            r.push(Fact { kind: FactKind::Subgraph, value: String::from_str(s) });
            assert(facts_view(r@) =~= before.push((FactKind::Subgraph, s@)));
            assert(!before.contains((FactKind::Subgraph, s@)));
            assert forall|a: int, b: int|
                0 <= a < facts_view(r@).len() && 0 <= b < facts_view(r@).len() && a != b
                implies facts_view(r@)[a] != facts_view(r@)[b] by {
                if a == before.len() {
                    assert(before.contains(before[b]));
                } else if b == before.len() {
                    assert(before.contains(before[a]));
                }
            }
            assert forall|f: (FactKind, Seq<char>)|
                facts_view(r@).contains(f) <==> (before.contains(f) || f == (FactKind::Subgraph, s@)) by {
                if facts_view(r@).contains(f) {
                    let j = choose|j: int| 0 <= j < facts_view(r@).len() && facts_view(r@)[j] == f;
                    if j < before.len() {
                        assert(before[j] == f);
                    }
                }
                if before.contains(f) {
                    let j = choose|j: int| 0 <= j < before.len() && before[j] == f;
                    assert(facts_view(r@)[j] == f);
                }
                if f == (FactKind::Subgraph, s@) {
                    assert(facts_view(r@)[before.len() as int] == f);
                }
            }
            assert(opt_str_view(service) == Some(s@));
            assert forall|f: (FactKind, Seq<char>)|
                facts_view(r@).contains(f) <==> expected_fact(
                    desc.kind,
                    names@,
                    mode,
                    opt_str_view(service),
                    f,
                ) by {
                assert(facts_view(r@).contains(f) <==> (before.contains(f) || f == (FactKind::Subgraph, s@)));
            }
        },
        None => {
            assert(opt_str_view(service) == None::<Seq<char>>);
            assert forall|f: (FactKind, Seq<char>)|
                facts_view(r@).contains(f) <==> expected_fact(
                    desc.kind,
                    names@,
                    mode,
                    opt_str_view(service),
                    f,
                ) by {
                assert(facts_view(r@) == before);
            }
        },
    }
    r
}

/// `f` stands in `r` at exactly one position.
pub open spec fn occurs_once(r: Seq<(FactKind, Seq<char>)>, f: (FactKind, Seq<char>)) -> bool {
    exists|j: int|
        0 <= j < r.len() && r[j] == f && forall|j2: int| 0 <= j2 < r.len() && r[j2] == f ==> j2 == j
}

/// For a query and the operation it selects, the facts built from its
/// descriptor hold exactly one fact per top-level field name of that
/// operation (fragments included), of the operation's kind, and every fact of
/// that kind names such a field: none is left out, none is repeated.
/// (Subscriptions under `Omit` give no such fact, by configuration.)
pub proof fn lemma_one_fact_per_root_field(
    query: Seq<char>,
    operation_name: Option<Seq<char>>,
    i: int,
    desc: OperationDescriptor,
    mode: SubscriptionFacts,
    service: Option<Seq<char>>,
    r: Seq<(FactKind, Seq<char>)>,
)
    requires
        is_selected(document_of(query).1, operation_name, i),
        desc.describes(document_of(query), document_of(query).1[i]),
        facts_for(desc, mode, service, r),
        emits(document_of(query).1[i].1, mode),
    ensures
        forall|n: Seq<char>|
            #[trigger] root_field(document_of(query), document_of(query).1[i].2, n) ==> occurs_once(
                r,
                (fact_kind_of(document_of(query).1[i].1), n),
            ),
        forall|j: int|
            0 <= j < r.len() && (#[trigger] r[j]).0 == fact_kind_of(document_of(query).1[i].1)
                ==> root_field(document_of(query), document_of(query).1[i].2, r[j].1),
{
    let d = document_of(query);
    let op = d.1[i];
    let fk = fact_kind_of(op.1);
    assert forall|n: Seq<char>| #[trigger] root_field(d, op.2, n) implies occurs_once(r, (fk, n)) by {
        let f = (fk, n);
        assert(desc.field_names().contains(n));
        assert(expected_fact(desc.kind, desc.field_names(), mode, service, f));
        assert(r.contains(f));
        let j = choose|j: int| 0 <= j < r.len() && r[j] == f;
        assert forall|j2: int| 0 <= j2 < r.len() && r[j2] == f implies j2 == j by {
            if j2 != j {
                assert(r[j2] != r[j]);
            }
        }
    }
    assert forall|j: int| 0 <= j < r.len() && (#[trigger] r[j]).0 == fk implies root_field(d, op.2, r[j].1) by {
        assert(r.contains(r[j]));
        assert(fk != FactKind::Subgraph);
        assert(desc.field_names().contains(r[j].1));
    }
}

} // verus!
