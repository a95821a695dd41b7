//! The simplest filesystem model: a flat registry of directory names.

use vstd::prelude::*;
use vstd::string::StringExecFns;
use crate::text::str_eq;

verus! {

/// A flat list of directory names, each held at most once.
#[derive(Debug)]
pub struct TestFileSystem {
    directories: Vec<String>,
}

impl TestFileSystem {
    /// The registered names, in registration order.
    pub closed spec fn dirs(&self) -> Seq<Seq<char>> {
        self.directories.deep_view()
    }

    /// No name is registered twice.
    pub open spec fn wf(&self) -> bool {
        forall|i: int, j: int| 0 <= i < j < self.dirs().len() ==> self.dirs()[i] != self.dirs()[j]
    }

    /// An empty registry.
    pub fn new() -> (r: Self)
        ensures
            r.wf(),
            r.dirs() == Seq::<Seq<char>>::empty(),
    {
        let r = TestFileSystem { directories: Vec::new() };
        proof {
            assert(r.dirs() =~= Seq::<Seq<char>>::empty());
        }
        r
    }

    /// Whether `name` is registered.
    fn contains(&self, name: &str) -> (r: bool)
        ensures
            r == self.dirs().contains(name@),
    {
        let mut i: usize = 0;
        while i < self.directories.len()
            invariant
                0 <= i <= self.dirs().len(),
                self.dirs().len() == self.directories@.len(),
                forall|j: int| 0 <= j < i ==> self.dirs()[j] != name@,
            decreases self.directories@.len() - i,
        {
            if str_eq(self.directories[i].as_str(), name) {
                proof {
                    assert(self.dirs()[i as int] == name@);
                }
                return true;
            }
            i = i + 1;
        }
        proof {
            assert(!self.dirs().contains(name@));
        }
        false
    }

    /// Registers a directory: rejects the empty name and names already
    /// registered, and appends anything else.
    pub fn create_directory(&mut self, name: &str) -> (r: Result<(), &'static str>)
        requires
            old(self).wf(),
        ensures
            final(self).wf(),
            name@.len() == 0 ==> r == Err::<(), &'static str>("Directory name cannot be empty")
                && final(self).dirs() == old(self).dirs(),
            name@.len() > 0 && old(self).dirs().contains(name@) ==> r == Err::<
                (),
                &'static str,
            >("Directory already exists") && final(self).dirs() == old(self).dirs(),
            name@.len() > 0 && !old(self).dirs().contains(name@) ==> r is Ok && final(self).dirs()
                =~= old(self).dirs().push(name@),
    {
        if name.is_empty() {
            return Err("Directory name cannot be empty");
        }
        if self.contains(name) {
            return Err("Directory already exists");
        }
        let owned = String::from_str(name);
        self.directories.push(owned);
        proof {
            assert(self.dirs() =~= old(self).dirs().push(name@));
        }
        Ok(())
    }

    /// Every registered name, in order.
    pub fn list_directories(&self) -> (r: Vec<String>)
        ensures
            r.deep_view() == self.dirs(),
    {
        let mut out: Vec<String> = Vec::new();
        let mut i: usize = 0;
        while i < self.directories.len()
            invariant
                0 <= i <= self.directories@.len(),
                out.deep_view() =~= self.dirs().take(i as int),
            decreases self.directories@.len() - i,
        {
            let ghost dv0 = out.deep_view();
            out.push(self.directories[i].clone());
            proof {
                assert(out.deep_view() =~= dv0.push(self.dirs()[i as int]));
                assert(out.deep_view() =~= self.dirs().take(i as int + 1));
            }
            i = i + 1;
        }
        proof {
            assert(out.deep_view() =~= self.dirs());
        }
        out
    }

    /// Unregisters a directory: removes the name, or reports that it is
    /// not there.
    pub fn remove_directory(&mut self, name: &str) -> (r: Result<(), &'static str>)
        requires
            old(self).wf(),
        ensures
            final(self).wf(),
            !old(self).dirs().contains(name@) ==> r == Err::<(), &'static str>(
                "Directory not found",
            ) && final(self).dirs() == old(self).dirs(),
            old(self).dirs().contains(name@) ==> r is Ok && {
                let i = old(self).dirs().index_of_first(name@).unwrap();
                final(self).dirs() =~= old(self).dirs().remove(i)
            },
    {
        let mut i: usize = 0;
        while i < self.directories.len()
            invariant
                self.wf(),
                0 <= i <= self.dirs().len(),
                self.dirs().len() == self.directories@.len(),
                self.dirs() == old(self).dirs(),
                forall|j: int| 0 <= j < i ==> self.dirs()[j] != name@,
            decreases self.directories@.len() - i,
        {
            if str_eq(self.directories[i].as_str(), name) {
                proof {
                    assert(self.dirs()[i as int] == name@);
                    assert(self.dirs().contains(name@));
                    old(self).dirs().index_of_first_ensures(name@);
                    assert(old(self).dirs().index_of_first(name@) == Some(i as int));
                }
                self.directories.remove(i);
                proof {
                    assert(self.dirs() =~= old(self).dirs().remove(i as int));
                }
                return Ok(());
            }
            i = i + 1;
        }
        proof {
            assert(!self.dirs().contains(name@));
        }
        Err("Directory not found")
    }
}

} // verus!
