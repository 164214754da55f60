use vstd::prelude::*;

verus! {

/// A value bound to a name.
#[derive(Debug, Clone, PartialEq)]
pub struct Binding<V> {
    pub name: String,
    pub value: V,
}

/// No two bindings share a name.
pub open spec fn names_unique<V>(s: Seq<Binding<V>>) -> bool {
    forall|i: int, j: int|
        0 <= i < s.len() && 0 <= j < s.len() && i != j ==> s[i].name@ != s[j].name@
}

/// The map from name to value that a sequence of bindings stands for; a later
/// binding of a name wins over an earlier one.
pub open spec fn table_map<V>(s: Seq<Binding<V>>) -> Map<Seq<char>, V>
    decreases s.len(),
{
    if s.len() == 0 {
        Map::empty()
    } else {
        table_map(s.drop_last()).insert(s.last().name@, s.last().value)
    }
}

/// A name is bound exactly when some binding carries it.
pub proof fn lemma_table_map_domain<V>(s: Seq<Binding<V>>, k: Seq<char>)
    ensures
        table_map(s).contains_key(k) <==> exists|i: int| 0 <= i < s.len() && s[i].name@ == k,
    decreases s.len(),
{
    if s.len() > 0 {
        let t = s.drop_last();
        lemma_table_map_domain(t, k);
        if table_map(s).contains_key(k) && k != s.last().name@ {
            let i = choose|i: int| 0 <= i < t.len() && t[i].name@ == k;
            assert(s[i].name@ == k);
        }
        if exists|i: int| 0 <= i < s.len() && s[i].name@ == k {
            let i = choose|i: int| 0 <= i < s.len() && s[i].name@ == k;
            if i < s.len() - 1 {
                assert(t[i].name@ == k);
            }
        }
    }
}

/// With unique names, each binding gives the value that its name maps to.
pub proof fn lemma_table_map_at<V>(s: Seq<Binding<V>>, i: int)
    requires
        names_unique(s),
        0 <= i < s.len(),
    ensures
        table_map(s).contains_key(s[i].name@),
        table_map(s)[s[i].name@] == s[i].value,
    decreases s.len(),
{
    if i < s.len() - 1 {
        let t = s.drop_last();
        assert(t[i] == s[i]);
        lemma_table_map_at(t, i);
        assert(s[i].name@ != s.last().name@);
    }
}

/// Replacing the value of one binding replaces the value its name maps to.
pub proof fn lemma_table_map_update<V>(s: Seq<Binding<V>>, i: int, b: Binding<V>)
    requires
        names_unique(s),
        0 <= i < s.len(),
        b.name@ == s[i].name@,
    ensures
        names_unique(s.update(i, b)),
        table_map(s.update(i, b)) == table_map(s).insert(b.name@, b.value),
    decreases s.len(),
{
    let u = s.update(i, b);
    if i == s.len() - 1 {
        assert(u.drop_last() == s.drop_last());
    } else {
        let t = s.drop_last();
        lemma_table_map_update(t, i, b);
        assert(u.drop_last() == t.update(i, b));
        assert(s.last().name@ != b.name@);
        assert(table_map(u) =~= table_map(s).insert(b.name@, b.value));
    }
}

/// Appending a binding of a new name keeps the names unique.
pub proof fn lemma_table_map_push<V>(s: Seq<Binding<V>>, b: Binding<V>)
    requires
        names_unique(s),
        !table_map(s).contains_key(b.name@),
    ensures
        names_unique(s.push(b)),
        table_map(s.push(b)) == table_map(s).insert(b.name@, b.value),
{
    lemma_table_map_domain(s, b.name@);
    assert(s.push(b).drop_last() == s);
}

/// The position of the binding named `name`, if there is one.
pub fn find_binding<V>(entries: &Vec<Binding<V>>, name: &String) -> (r: Option<usize>)
    requires
        names_unique(entries@),
    ensures
        match r {
            Some(i) => i < entries@.len() && entries@[i as int].name@ == name@,
            None => !table_map(entries@).contains_key(name@),
        },
{
    let mut i: usize = 0;
    while i < entries.len()
        invariant
            i <= entries@.len(),
            forall|j: int| 0 <= j < i ==> entries@[j].name@ != name@,
        decreases entries@.len() - i,
    {
        if entries[i].name == *name {
            return Some(i);
        }
        i += 1;
    }
    proof {
        lemma_table_map_domain(entries@, name@);
    }
    None
}

} // verus!
