use vstd::prelude::*;

verus! {

/// The persisted part of a state: its session id, its open views and the
/// commands that were run.
#[derive(Debug)]
pub struct StateData {
    pub id: u8,
    pub views: Vec<String>,
    pub commands: Vec<String>,
}

impl Default for StateData {
    fn default() -> (r: Self)
        ensures
            r.id == 0,
            r.views@.len() == 0,
            r.commands@.len() == 0,
    {
        StateData { id: 0, views: Vec::new(), commands: Vec::new() }
    }
}

/// The two payloads hold the same views and the same commands (the id is
/// not compared).
pub open spec fn same_contents(a: StateData, b: StateData) -> bool {
    a.views.deep_view() == b.views.deep_view() && a.commands.deep_view() == b.commands.deep_view()
}

/// Compares two lists of strings element by element.
pub fn same_strings(a: &Vec<String>, b: &Vec<String>) -> (r: bool)
    ensures
        r == (a.deep_view() == b.deep_view()),
{
    if a.len() != b.len() {
        assert(a.deep_view().len() != b.deep_view().len());
        return false;
    }
    let mut i: usize = 0;
    while i < a.len()
        invariant
            a@.len() == b@.len(),
            0 <= i <= a@.len(),
            forall|j: int| 0 <= j < i ==> a@[j]@ == b@[j]@,
        decreases a@.len() - i,
    {
        if a[i] != b[i] {
            assert(a.deep_view()[i as int] != b.deep_view()[i as int]);
            return false;
        }
        i = i + 1;
    }
    assert(a.deep_view() =~= b.deep_view());
    true
}

} // verus!
