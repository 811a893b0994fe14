use vstd::prelude::*;

verus! {

/// The persisted payload of a session: its numeric id and the views (tabs)
/// that the client has open.
#[derive(Clone, Debug)]
pub struct StateData {
    pub id: u8,
    pub views: Vec<String>,
}

impl StateData {
    /// The views as plain character sequences.
    pub open spec fn views_view(&self) -> Seq<Seq<char>> {
        self.views@.map_values(|v: String| v@)
    }

    /// Two payloads are the same when their ids and their views agree.
    pub open spec fn same_as(&self, other: &StateData) -> bool {
        self.id == other.id && self.views_view() == other.views_view()
    }

    /// An empty payload with id 0 and no open views.
    pub fn empty() -> (r: StateData)
        ensures
            r.id == 0,
            r.views@.len() == 0,
    {
        StateData { id: 0, views: Vec::new() }
    }
}

impl PartialEq for StateData {
    fn eq(&self, other: &StateData) -> (r: bool) {
        if self.id != other.id || self.views.len() != other.views.len() {
            assert(self.id != other.id || self.views_view().len() != other.views_view().len());
            return false;
        }
        let n = self.views.len();
        let mut i: usize = 0;
        while i < n
            invariant
                n == self.views@.len(),
                n == other.views@.len(),
                i <= n,
                forall|j: int| 0 <= j < i ==> self.views@[j]@ == other.views@[j]@,
            decreases n - i,
        {
            if self.views[i] != other.views[i] {
                assert(self.views_view()[i as int] != other.views_view()[i as int]);
                return false;
            }
            i = i + 1;
        }
        assert(self.views_view() =~= other.views_view());
        true
    }
}

impl vstd::std_specs::cmp::PartialEqSpecImpl for StateData {
    open spec fn obeys_eq_spec() -> bool {
        true
    }

    open spec fn eq_spec(&self, other: &StateData) -> bool {
        self.same_as(other)
    }
}

} // verus!
