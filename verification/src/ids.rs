use vstd::prelude::*;

verus! {

/// A worker's name; two workers are the same worker when their names are equal.
pub type WorkerId = String;

/// The names held by a sequence of identifiers.
pub open spec fn names(s: Seq<String>) -> Seq<Seq<char>> {
    s.map_values(|w: String| w@)
}

/// `i` is the first position of `v` in `s`.
pub open spec fn first_occurrence(s: Seq<Seq<char>>, v: Seq<char>, i: int) -> bool {
    &&& 0 <= i < s.len()
    &&& s[i] == v
    &&& forall|j: int| 0 <= j < i ==> s[j] != v
}

/// `s` with its first occurrence of `v` removed, or `s` itself when `v` is absent.
pub open spec fn remove_first(s: Seq<Seq<char>>, v: Seq<char>) -> Seq<Seq<char>> {
    if s.contains(v) {
        s.remove(choose|i: int| first_occurrence(s, v, i))
    } else {
        s
    }
}

/// `s` with `v` appended unless it already holds `v`.
pub open spec fn add_once(s: Seq<Seq<char>>, v: Seq<char>) -> Seq<Seq<char>> {
    if s.contains(v) {
        s
    } else {
        s.push(v)
    }
}

/// No name occurs twice in `s`.
pub open spec fn distinct(s: Seq<Seq<char>>) -> bool {
    forall|i: int, j: int| 0 <= i < s.len() && 0 <= j < s.len() && i != j ==> s[i] != s[j]
}

pub proof fn lemma_remove_first_at(s: Seq<Seq<char>>, v: Seq<char>, i: int)
    requires
        first_occurrence(s, v, i),
    ensures
        s.contains(v),
        remove_first(s, v) == s.remove(i),
{
    assert(s[i] == v);
    let k = choose|k: int| first_occurrence(s, v, k);
    assert(first_occurrence(s, v, k));
    if k < i {
        assert(s[k] != v);
    }
    if i < k {
        assert(s[i] != v);
    }
    assert(k == i);
}

pub proof fn lemma_names_remove(s: Seq<String>, i: int)
    requires
        0 <= i < s.len(),
    ensures
        names(s.remove(i)) == names(s).remove(i),
{
    assert(names(s.remove(i)) =~= names(s).remove(i));
}

pub proof fn lemma_names_push(s: Seq<String>, w: String)
    ensures
        names(s.push(w)) == names(s).push(w@),
{
    assert(names(s.push(w)) =~= names(s).push(w@));
}

/// Position of the first identifier in `values` that names `value`.
pub fn position(values: &Vec<String>, value: &String) -> (r: Option<usize>)
    ensures
        match r {
            Some(i) => first_occurrence(names(values@), value@, i as int),
            None => !names(values@).contains(value@),
        },
{
    let mut i: usize = 0;
    while i < values.len()
        invariant
            i <= values.len(),
            forall|j: int| 0 <= j < i ==> names(values@)[j] != value@,
        decreases values.len() - i,
    {
        if values[i] == *value {
            return Some(i);
        }
        i += 1;
    }
    assert forall|j: int| 0 <= j < names(values@).len() implies names(values@)[j] != value@ by {}
    None
}

/// Whether `values` holds an identifier naming `value`.
pub fn contains_name(values: &Vec<String>, value: &String) -> (r: bool)
    ensures
        r == names(values@).contains(value@),
{
    match position(values, value) {
        Some(i) => {
            assert(names(values@)[i as int] == value@);
            true
        },
        None => false,
    }
}

/// Copies an identifier; the copy holds the same value.
pub fn copy_id(value: &String) -> (r: String)
    ensures
        r == *value,
        r@ == value@,
{
    value.clone()
}

/// The first position of `v` in `s` (meaningful when `s` holds `v`).
pub open spec fn first_position(s: Seq<Seq<char>>, v: Seq<char>) -> int {
    choose|i: int| first_occurrence(s, v, i)
}

pub proof fn lemma_first_position(s: Seq<Seq<char>>, v: Seq<char>, i: int)
    requires
        first_occurrence(s, v, i),
    ensures
        first_position(s, v) == i,
        s.contains(v),
{
    let k = first_position(s, v);
    assert(first_occurrence(s, v, k));
    if k < i {
        assert(s[k] != v);
    }
    if i < k {
        assert(s[i] != v);
    }
}

/// A sequence that holds `v` holds it first somewhere.
pub proof fn lemma_first_position_exists(s: Seq<Seq<char>>, v: Seq<char>)
    requires
        s.contains(v),
    ensures
        first_occurrence(s, v, first_position(s, v)),
{
    let k = choose|k: int| 0 <= k < s.len() && s[k] == v;
    lemma_first_below(s, v, k);
}

proof fn lemma_first_below(s: Seq<Seq<char>>, v: Seq<char>, k: int)
    requires
        0 <= k < s.len(),
        s[k] == v,
    ensures
        first_occurrence(s, v, first_position(s, v)),
    decreases k,
{
    if forall|j: int| 0 <= j < k ==> s[j] != v {
        assert(first_occurrence(s, v, k));
    } else {
        let j = choose|j: int| 0 <= j < k && s[j] == v;
        lemma_first_below(s, v, j);
    }
}

} // verus!
