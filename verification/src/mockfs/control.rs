//! The table of mounts, and the requests that change it.
use vstd::prelude::*;

use crate::mockfs::registration::{
    invalid_path_text, mount_fault, normalize_mount_path,
    normalized, RegisterError,
};
use crate::text::same_text;

verus! {

/// Why a request is refused.
#[derive(Debug)]
pub enum ControlError {
    /// The request makes no sense.
    InvalidArgs(String),
    /// The request could not be carried out.
    Failed(String),
}

/// A path that cannot be used makes no sense of a request.
pub fn invalid_args(error: RegisterError) -> (r: ControlError)
    ensures
        r == ControlError::InvalidArgs(error.message),
{
    ControlError::InvalidArgs(error.message)
}

/// One mounted filesystem.
#[derive(Debug)]
pub struct Mount<M> {
    path: String,
    mounted: M,
}

/// All mounted filesystems, each under the one spelling of its path.
#[derive(Debug)]
pub struct Control<M> {
    mounts: Vec<Mount<M>>,
}

/// Whether a table has a mount under a spelling.
spec fn holds_path<M>(mounts: Seq<Mount<M>>, path: Seq<char>) -> bool {
    exists|i: int| 0 <= i < mounts.len() && (#[trigger] mounts[i]).path@ == path
}

/// The mount of a table under a spelling.
spec fn place<M>(mounts: Seq<Mount<M>>, path: Seq<char>) -> int {
    choose|i: int| 0 <= i < mounts.len() && (#[trigger] mounts[i]).path@ == path
}

spec fn table<M>(mounts: Seq<Mount<M>>) -> Map<Seq<char>, M> {
    Map::new(
        |path: Seq<char>| holds_path(mounts, path),
        |path: Seq<char>| mounts[place(mounts, path)].mounted,
    )
}

/// No path is mounted twice.
spec fn apart<M>(mounts: Seq<Mount<M>>) -> bool {
    forall|i: int, j: int|
        0 <= i < j < mounts.len() ==> (#[trigger] mounts[i]).path@ != (#[trigger] mounts[j]).path@
}

proof fn lemma_place<M>(mounts: Seq<Mount<M>>, i: int)
    requires
        apart(mounts),
        0 <= i < mounts.len(),
    ensures
        holds_path(mounts, mounts[i].path@),
        place(mounts, mounts[i].path@) == i,
{
    let j = place(mounts, mounts[i].path@);
    assert(mounts[i].path@ == mounts[i].path@);
    assert(mounts[j].path@ == mounts[i].path@);
    if j < i {
        assert(mounts[j].path@ != mounts[i].path@);
    } else if i < j {
        assert(mounts[i].path@ != mounts[j].path@);
    }
}

proof fn lemma_table_after_push<M>(mounts: Seq<Mount<M>>, mount: Mount<M>)
    requires
        apart(mounts),
        !holds_path(mounts, mount.path@),
    ensures
        apart(mounts.push(mount)),
        table(mounts.push(mount)) == table(mounts).insert(mount.path@, mount.mounted),
{
    let after = mounts.push(mount);
    assert forall|i: int, j: int| 0 <= i < j < after.len() implies (#[trigger] after[i]).path@ != (
    #[trigger] after[j]).path@ by {
        assert(after[i] == mounts[i]);
        if j < mounts.len() {
            assert(after[j] == mounts[j]);
        }
    }
    assert forall|path: Seq<char>| #[trigger] holds_path(after, path) <==> holds_path(mounts, path) || path
        == mount.path@ by {
        if holds_path(mounts, path) {
            assert(after[place(mounts, path)].path@ == path);
        }
        if path == mount.path@ {
            assert(after[mounts.len() as int].path@ == path);
        }
        if holds_path(after, path) && path != mount.path@ {
            assert(mounts[place(after, path)].path@ == path);
        }
    }
    assert forall|path: Seq<char>| holds_path(mounts, path) implies #[trigger] table(after)[path] == table(
        mounts,
    )[path] by {
        let i = place(mounts, path);
        assert(after[i] == mounts[i]);
        lemma_place(after, i);
        lemma_place(mounts, i);
        assert(holds_path(after, path));
    }
    lemma_place(after, mounts.len() as int);
    assert(table(after) =~= table(mounts).insert(mount.path@, mount.mounted));
}

proof fn lemma_table_after_remove<M>(mounts: Seq<Mount<M>>, at: int)
    requires
        apart(mounts),
        0 <= at < mounts.len(),
    ensures
        apart(mounts.remove(at)),
        table(mounts.remove(at)) == table(mounts).remove(mounts[at].path@),
{
    let after = mounts.remove(at);
    let gone = mounts[at].path@;
    assert forall|i: int, j: int| 0 <= i < j < after.len() implies (#[trigger] after[i]).path@ != (
    #[trigger] after[j]).path@ by {
        let x = if i < at {
            i
        } else {
            i + 1
        };
        let y = if j < at {
            j
        } else {
            j + 1
        };
        assert(mounts[x].path@ != mounts[y].path@);
    }
    assert forall|path: Seq<char>| #[trigger] holds_path(after, path) <==> holds_path(mounts, path) && path
        != gone by {
        if holds_path(mounts, path) && path != gone {
            let i = place(mounts, path);
            let x = if i < at {
                i
            } else {
                i - 1
            };
            assert(after[x].path@ == path);
        }
        if holds_path(after, path) {
            let x = place(after, path);
            let i = if x < at {
                x
            } else {
                x + 1
            };
            assert(after[x] == mounts[i]);
            assert(mounts[i].path@ == path);
            if i < at {
                assert(mounts[i].path@ != mounts[at].path@);
            } else {
                assert(mounts[at].path@ != mounts[i].path@);
            }
        }
    }
    assert forall|path: Seq<char>| holds_path(after, path) implies #[trigger] table(after)[path] == table(
        mounts,
    )[path] by {
        let x = place(after, path);
        let i = if x < at {
            x
        } else {
            x + 1
        };
        assert(after[x] == mounts[i]);
        lemma_place(after, x);
        lemma_place(mounts, i);
        assert(holds_path(mounts, path));
    }
    assert(table(after) =~= table(mounts).remove(gone));
}

impl<M> View for Control<M> {
    type V = Map<Seq<char>, M>;

    /// The mounted filesystems by the spelling of their paths.
    closed spec fn view(&self) -> Map<Seq<char>, M> {
        table(self.mounts@)
    }
}

/// Why a path cannot be mounted, if it cannot.
pub open spec fn mount_refusal<M>(mounts: Map<Seq<char>, M>, path: Seq<char>) -> Option<Seq<char>> {
    if mount_fault(path) is Some {
        Some(invalid_path_text(path, mount_fault(path)->0))
    } else if mounts.contains_key(normalized(path)) {
        Some("already mounted: "@ + normalized(path))
    } else {
        None
    }
}

/// Why a path is not found mounted, if it is not.
pub open spec fn absence<M>(mounts: Map<Seq<char>, M>, path: Seq<char>) -> Option<Seq<char>> {
    if mount_fault(path) is Some {
        Some(invalid_path_text(path, mount_fault(path)->0))
    } else if !mounts.contains_key(normalized(path)) {
        Some("not mounted: "@ + normalized(path))
    } else {
        None
    }
}

impl<M> Control<M> {
    /// No path is mounted twice.
    pub closed spec fn wf(&self) -> bool {
        apart(self.mounts@)
    }

    /// A table without mounts.
    pub fn new() -> (control: Control<M>)
        ensures
            control.wf(),
            control@ == Map::<Seq<char>, M>::empty(),
    {
        let control = Control { mounts: Vec::new() };
        assert(control@ =~= Map::<Seq<char>, M>::empty());
        control
    }

    fn position(&self, path: &str) -> (r: Option<usize>)
        requires
            self.wf(),
        ensures
            r matches Some(i) ==> i < self.mounts@.len() && self.mounts@[i as int].path@ == path@,
            r is Some <==> self@.contains_key(path@),
    {
        let mut i: usize = 0;
        while i < self.mounts.len()
            invariant
                i <= self.mounts@.len(),
                forall|j: int| 0 <= j < i ==> (#[trigger] self.mounts@[j]).path@ != path@,
            decreases self.mounts@.len() - i,
        {
            if same_text(self.mounts[i].path.as_str(), path) {
                assert(holds_path(self.mounts@, path@));
                return Some(i);
            }
            i += 1;
        }
        None
    }

    /// Find a mounted filesystem.
    pub fn mounted_handle(&self, mount_path: &str) -> (r: Result<&M, ControlError>)
        requires
            self.wf(),
        ensures
            r is Ok <==> absence(self@, mount_path@) is None,
            r matches Ok(mounted) ==> *mounted == self@[normalized(mount_path@)],
            r matches Err(error) ==> error is InvalidArgs && error->InvalidArgs_0@ == absence(
                self@,
                mount_path@,
            )->0,
    {
        let path: String = match normalize_mount_path(mount_path) {
            Ok(path) => path,
            Err(error) => {
                return Err(invalid_args(error));
            },
        };
        match self.position(path.as_str()) {
            Some(i) => {
                proof {
                    lemma_place(self.mounts@, i as int);
                }
                Ok(&self.mounts[i].mounted)
            },
            None => Err(
                ControlError::InvalidArgs("not mounted: ".to_owned().concat(path.as_str())),
            ),
        }
    }

    /// Check a request to mount. Returns the spelling of the path: that directory is
    /// to be made and mounted.
    pub fn begin_mount(&self, mount_path: &str) -> (r: Result<String, ControlError>)
        requires
            self.wf(),
        ensures
            r is Ok <==> mount_refusal(self@, mount_path@) is None,
            r matches Ok(path) ==> path@ == normalized(mount_path@) && !self@.contains_key(path@),
            r matches Err(error) ==> error is InvalidArgs && error->InvalidArgs_0@
                == mount_refusal(self@, mount_path@)->0,
    {
        let path: String = match normalize_mount_path(mount_path) {
            Ok(path) => path,
            Err(error) => {
                return Err(invalid_args(error));
            },
        };
        match self.position(path.as_str()) {
            Some(_) => Err(
                ControlError::InvalidArgs("already mounted: ".to_owned().concat(path.as_str())),
            ),
            None => Ok(path),
        }
    }

    /// Take in what mounting gave.
    pub fn mount(&mut self, path: String, made: Result<M, String>) -> (r: Result<(), ControlError>)
        requires
            old(self).wf(),
            !old(self)@.contains_key(path@),
        ensures
            final(self).wf(),
            r is Ok <==> made is Ok,
            made matches Ok(mounted) ==> final(self)@ == old(self)@.insert(path@, mounted),
            made matches Err(why) ==> r->Err_0 == ControlError::Failed(why) && final(self)@ == old(
                self,
            )@,
    {
        match made {
            Err(why) => Err(ControlError::Failed(why)),
            Ok(mounted) => {
                let mount = Mount { path, mounted };
                proof {
                    lemma_table_after_push(self.mounts@, mount);
                }
                self.mounts.push(mount);
                Ok(())
            },
        }
    }

    /// Take a mount out of the table. Returns it: dropping it ends the mount.
    pub fn unmount(&mut self, mount_path: &str) -> (r: Result<M, ControlError>)
        requires
            old(self).wf(),
        ensures
            final(self).wf(),
            r is Ok <==> absence(old(self)@, mount_path@) is None,
            r matches Ok(mounted) ==> mounted == old(self)@[normalized(mount_path@)]
                && final(self)@ == old(self)@.remove(normalized(mount_path@)),
            r matches Err(error) ==> final(self)@ == old(self)@ && error is InvalidArgs
                && error->InvalidArgs_0@ == absence(old(self)@, mount_path@)->0,
    {
        let path: String = match normalize_mount_path(mount_path) {
            Ok(path) => path,
            Err(error) => {
                return Err(invalid_args(error));
            },
        };
        match self.position(path.as_str()) {
            Some(i) => {
                proof {
                    lemma_place(self.mounts@, i as int);
                    lemma_table_after_remove(self.mounts@, i as int);
                }
                let mount = self.mounts.remove(i);
                Ok(mount.mounted)
            },
            None => Err(
                ControlError::InvalidArgs("not mounted: ".to_owned().concat(path.as_str())),
            ),
        }
    }

    /// Answer a liveness request.
    pub fn ping(&self) -> (answer: String)
        ensures
            answer@ == "ok"@,
    {
        "ok".to_owned()
    }
}

/// A path that can be mounted is found mounted afterwards, by every spelling of it;
/// mounting it once more is refused; unmounting it gives the table back.
pub proof fn law_mount_and_unmount_are_inverse<M>(
    mounts: Map<Seq<char>, M>,
    path: Seq<char>,
    spelling: Seq<char>,
    mounted: M,
)
    requires
        mount_refusal(mounts, path) is None,
        mount_fault(spelling) is None,
        normalized(spelling) == normalized(path),
    ensures
        ({
            let after = mounts.insert(normalized(path), mounted);
            &&& absence(after, spelling) is None
            &&& after[normalized(spelling)] == mounted
            &&& mount_refusal(after, spelling) == Some("already mounted: "@ + normalized(path))
            &&& after.remove(normalized(spelling)) == mounts
        }),
{
    assert(mounts.insert(normalized(path), mounted).remove(normalized(path)) =~= mounts);
}

/// Mounts are independent: mounting or unmounting one path leaves the others as they
/// are.
pub proof fn law_mounts_are_independent<M>(
    mounts: Map<Seq<char>, M>,
    path: Seq<char>,
    other: Seq<char>,
    mounted: M,
)
    requires
        normalized(other) != normalized(path),
    ensures
        absence(mounts.insert(normalized(path), mounted), other) == absence(mounts, other),
        absence(mounts.remove(normalized(path)), other) == absence(mounts, other),
        absence(mounts, other) is None ==> mounts.insert(normalized(path), mounted)[normalized(
            other,
        )] == mounts[normalized(other)] && mounts.remove(normalized(path))[normalized(other)]
            == mounts[normalized(other)],
{
}

/// What a request about mounts is told: that the path cannot be used, if it cannot; else
/// that the path is mounted, or is not, by the one spelling of it.
pub proof fn law_requests_are_told_why<M>(mounts: Map<Seq<char>, M>, path: Seq<char>)
    ensures
        mount_refusal(mounts, path) is None <==> mount_fault(path) is None
            && !mounts.dom().contains(normalized(path)),
        absence(mounts, path) is None <==> mount_fault(path) is None && mounts.dom().contains(
            normalized(path),
        ),
        mount_fault(path) matches Some(fault) ==> {
            let told = "invalid path '"@ + path + "': "@ + fault;
            mount_refusal(mounts, path) == Some(told) && absence(mounts, path) == Some(told)
        },
        mount_fault(path) is None && mounts.dom().contains(normalized(path)) ==> mount_refusal(
            mounts,
            path,
        ) == Some("already mounted: "@ + normalized(path)),
        mount_fault(path) is None && !mounts.dom().contains(normalized(path)) ==> absence(
            mounts,
            path,
        ) == Some("not mounted: "@ + normalized(path)),
{
}

} // verus!
