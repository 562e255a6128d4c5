//! Restart-surviving managed and unmanaged VM sets.
use vstd::prelude::*;

use crate::text::same_text;

verus! {

/// Why an ownership registry was refused.
#[derive(Debug)]
pub enum StateError {
    /// The named VM is both managed and unmanaged.
    Overlap(String),
    /// The registry could not be read or written.
    Storage(String),
}

impl StateError {
    /// What the error says.
    pub open spec fn text(self) -> Seq<char> {
        match self {
            StateError::Overlap(id) => "VM is both managed and unmanaged: "@ + id@,
            StateError::Storage(what) => what@,
        }
    }

    /// Render the error for people.
    pub fn message(&self) -> (m: String)
        ensures
            m@ == self.text(),
    {
        match self {
            StateError::Overlap(id) => "VM is both managed and unmanaged: ".to_owned().concat(
                id.as_str(),
            ),
            StateError::Storage(what) => what.clone(),
        }
    }
}

/// The VMs that were classified, each as managed or as unmanaged.
#[derive(Debug)]
pub struct VmOwnership {
    managed: Vec<String>,
    unmanaged: Vec<String>,
}

/// Whether a list names `id`.
pub open spec fn names(list: Seq<String>, id: Seq<char>) -> bool {
    exists|i: int| 0 <= i < list.len() && (#[trigger] list[i])@ == id
}

fn lists(list: &Vec<String>, id: &str) -> (r: bool)
    ensures
        r == names(list@, id@),
{
    let mut i: usize = 0;
    while i < list.len()
        invariant
            i <= list@.len(),
            forall|j: int| 0 <= j < i ==> (#[trigger] list@[j])@ != id@,
        decreases list@.len() - i,
    {
        if same_text(list[i].as_str(), id) {
            return true;
        }
        i += 1;
    }
    false
}

/// Each name in either list with the classification that the lists give it.
pub open spec fn classifications(managed: Seq<String>, unmanaged: Seq<String>) -> Map<
    Seq<char>,
    bool,
> {
    Map::new(
        |id: Seq<char>| names(managed, id) || names(unmanaged, id),
        |id: Seq<char>| names(managed, id),
    )
}

impl View for VmOwnership {
    type V = Map<Seq<char>, bool>;

    /// The classified VMs: `true` for managed ones, `false` for unmanaged ones.
    closed spec fn view(&self) -> Map<Seq<char>, bool> {
        classifications(self.managed@, self.unmanaged@)
    }
}

impl VmOwnership {
    /// No VM is both managed and unmanaged.
    pub closed spec fn wf(&self) -> bool {
        forall|id: Seq<char>| names(self.managed@, id) ==> !names(self.unmanaged@, id)
    }

    /// A registry without any VM.
    pub fn new() -> (r: VmOwnership)
        ensures
            r.wf(),
            r@ == Map::<Seq<char>, bool>::empty(),
    {
        let r = VmOwnership { managed: Vec::new(), unmanaged: Vec::new() };
        assert(r@ =~= Map::<Seq<char>, bool>::empty());
        r
    }

    /// The registry that two stored lists describe. A VM on both lists is refused.
    pub fn from_lists(managed: Vec<String>, unmanaged: Vec<String>) -> (r: Result<
        VmOwnership,
        StateError,
    >)
        ensures
            r is Err <==> exists|id: Seq<char>| names(managed@, id) && #[trigger] names(
                unmanaged@,
                id,
            ),
            r matches Err(e) ==> e matches StateError::Overlap(id) && names(managed@, id@)
                && names(unmanaged@, id@),
            r matches Ok(registry) ==> registry.wf() && registry@ == classifications(
                managed@,
                unmanaged@,
            ),
    {
        let mut i: usize = 0;
        while i < managed.len()
            invariant
                i <= managed@.len(),
                forall|j: int| 0 <= j < i ==> !names(unmanaged@, (#[trigger] managed@[j])@),
            decreases managed@.len() - i,
        {
            if lists(&unmanaged, managed[i].as_str()) {
                let id = managed[i].clone();
                assert(names(managed@, id@));
                return Err(StateError::Overlap(id));
            }
            i += 1;
        }
        Ok(VmOwnership { managed, unmanaged })
    }

    /// The managed and the unmanaged VMs, as the two lists to be stored.
    pub fn stored(&self) -> (lists: (&Vec<String>, &Vec<String>))
        ensures
            classifications(lists.0@, lists.1@) == self@,
            self.wf() ==> forall|id: Seq<char>| #[trigger]
                names(lists.0@, id) ==> !names(lists.1@, id),
    {
        (&self.managed, &self.unmanaged)
    }

    /// How a VM was classified, if it was.
    pub fn classification(&self, id: &str) -> (r: Option<bool>)
        requires
            self.wf(),
        ensures
            r == if self@.contains_key(id@) {
                Some(self@[id@])
            } else {
                None
            },
    {
        if lists(&self.managed, id) {
            Some(true)
        } else if lists(&self.unmanaged, id) {
            Some(false)
        } else {
            None
        }
    }

    /// Record the classification of a VM. A VM that already has the other
    /// classification is refused and keeps it.
    pub fn record(&mut self, id: &str, managed: bool) -> (r: Result<(), StateError>)
        requires
            old(self).wf(),
        ensures
            final(self).wf(),
            r is Err <==> old(self)@.contains_key(id@) && old(self)@[id@] != managed,
            r is Ok ==> final(self)@ == old(self)@.insert(id@, managed),
            r is Err ==> final(self)@ == old(self)@,
            r matches Err(e) ==> e matches StateError::Overlap(name) && name@ == id@,
    {
        match self.classification(id) {
            Some(known) => {
                if known == managed {
                    assert(self@ =~= old(self)@.insert(id@, managed));
                    Ok(())
                } else {
                    Err(StateError::Overlap(id.to_owned()))
                }
            },
            None => {
                let name: String = id.to_owned();
                let ghost before = *self;
                if managed {
                    self.managed.push(name);
                    proof {
                        lemma_push_names(before.managed@, name);
                    }
                } else {
                    self.unmanaged.push(name);
                    proof {
                        lemma_push_names(before.unmanaged@, name);
                    }
                }
                assert(self@ =~= old(self)@.insert(id@, managed));
                Ok(())
            },
        }
    }
}

proof fn lemma_push_names(list: Seq<String>, name: String)
    ensures
        forall|id: Seq<char>| #[trigger]
            names(list.push(name), id) <==> names(list, id) || id == name@,
{
    assert forall|id: Seq<char>| #[trigger] names(list.push(name), id) <==> names(list, id) || id
        == name@ by {
        if names(list, id) {
            let i = choose|i: int| 0 <= i < list.len() && (#[trigger] list[i])@ == id;
            assert(list.push(name)[i]@ == id);
        }
        if id == name@ {
            assert(list.push(name)[list.len() as int]@ == id);
        }
        if names(list.push(name), id) && id != name@ {
            let i = choose|i: int|
                0 <= i < list.push(name).len() && (#[trigger] list.push(name)[i])@ == id;
            assert(list[i]@ == id);
        }
    }
}

/// A VM is classified exactly if one of the lists names it, and as managed exactly if
/// the first one does. A list names what is on it.
pub proof fn law_lists_classify_what_they_name(
    managed: Seq<String>,
    unmanaged: Seq<String>,
    id: Seq<char>,
    name: String,
)
    ensures
        classifications(managed, unmanaged).dom().contains(id) <==> names(managed, id) || names(
            unmanaged,
            id,
        ),
        names(managed, id) ==> classifications(managed, unmanaged)[id],
        !names(managed, id) && names(unmanaged, id) ==> !classifications(managed, unmanaged)[id],
        !names(Seq::<String>::empty(), id),
        names(managed.push(name), id) <==> names(managed, id) || name@ == id,
{
    lemma_push_names(managed, name);
}

} // verus!
