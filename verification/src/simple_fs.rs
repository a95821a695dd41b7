//! A flat filesystem model: a root directory whose children are held as
//! an association list keyed by name, each name at most once.

use vstd::prelude::*;
use vstd::string::StringExecFns;
use crate::text::str_eq;

verus! {

/// One file or directory: its recorded name, kind, size, and children.
#[derive(Debug)]
pub struct FileItem {
    pub name: String,
    pub is_dir: bool,
    pub size: u32,
    pub children: Vec<(String, FileItem)>,
}

/// The key of every child, in storage order.
pub open spec fn ckeys(s: Seq<(String, FileItem)>) -> Seq<Seq<char>> {
    s.map_values(|p: (String, FileItem)| p.0@)
}

/// No key occurs twice.
pub open spec fn keys_unique(s: Seq<(String, FileItem)>) -> bool {
    forall|i: int, j: int| 0 <= i < j < s.len() ==> ckeys(s)[i] != ckeys(s)[j]
}

/// The item stored under a key, if any.
pub open spec fn clookup(s: Seq<(String, FileItem)>, k: Seq<char>) -> Option<FileItem> {
    match ckeys(s).index_of_first(k) {
        Some(i) => Some(s[i].1),
        None => None,
    }
}

/// Finds the first child stored under `key`.
fn find_key(children: &Vec<(String, FileItem)>, key: &str) -> (r: Option<usize>)
    ensures
        match r {
            Some(i) => {
                &&& ckeys(children@).index_of_first(key@) == Some(i as int)
                &&& ckeys(children@).contains(key@)
                &&& i < children@.len()
                &&& children@[i as int].0@ == key@
            },
            None => !ckeys(children@).contains(key@) && ckeys(children@).index_of_first(key@)
                is None,
        },
{
    let mut i: usize = 0;
    while i < children.len()
        invariant
            0 <= i <= children@.len(),
            forall|j: int| 0 <= j < i ==> ckeys(children@)[j] != key@,
        decreases children@.len() - i,
    {
        if str_eq(children[i].0.as_str(), key) {
            proof {
                assert(ckeys(children@)[i as int] == key@);
                assert(ckeys(children@).contains(key@));
                ckeys(children@).index_of_first_ensures(key@);
            }
            return Some(i);
        }
        i = i + 1;
    }
    proof {
        assert(forall|j: int| 0 <= j < ckeys(children@).len() ==> ckeys(children@)[j] != key@);
        assert(!ckeys(children@).contains(key@));
        ckeys(children@).index_of_first_ensures(key@);
    }
    None
}

/// The flat filesystem: a root directory and the current path string.
pub struct SimpleFS {
    root: FileItem,
    current: String,
}

impl SimpleFS {
    /// The root's children.
    pub closed spec fn children(&self) -> Seq<(String, FileItem)> {
        self.root.children@
    }

    /// The current path string.
    pub closed spec fn current_view(&self) -> Seq<char> {
        self.current@
    }

    /// Every child name is unique.
    pub open spec fn wf(&self) -> bool {
        keys_unique(self.children())
    }

    /// A root holding one sample file, with the current path at the
    /// root.
    pub fn new() -> (r: Self)
        ensures
            r.wf(),
            ckeys(r.children()) =~= seq!["README.txt"@],
            r.children()[0].1.is_dir == false,
            r.children()[0].1.size == 512,
            r.current_view() == "/"@,
    {
        let readme = FileItem {
            name: String::from_str("README.txt"),
            is_dir: false,
            size: 512,
            children: Vec::new(),
        };
        let mut children: Vec<(String, FileItem)> = Vec::new();
        children.push((String::from_str("README.txt"), readme));
        let root = FileItem {
            name: String::from_str("/"),
            is_dir: true,
            size: 0,
            children,
        };
        let r = SimpleFS { root, current: String::from_str("/") };
        proof {
            assert(ckeys(r.children()) =~= seq!["README.txt"@]);
        }
        r
    }

    /// The directory listing: the two dot entries, then every child
    /// name in storage order.
    pub fn list_dir(&self) -> (r: Vec<String>)
        ensures
            r.deep_view() =~= seq!["."@, ".."@] + ckeys(self.children()),
    {
        let mut items: Vec<String> = Vec::new();
        items.push(String::from_str("."));
        items.push(String::from_str(".."));
        let mut i: usize = 0;
        proof {
            assert(items.deep_view() =~= seq!["."@, ".."@] + ckeys(self.children()).take(0));
        }
        while i < self.root.children.len()
            invariant
                0 <= i <= self.children().len(),
                items.deep_view() =~= seq!["."@, ".."@] + ckeys(self.children()).take(i as int),
            decreases self.children().len() - i,
        {
            let ghost dv0 = items.deep_view();
            items.push(self.root.children[i].0.clone());
            proof {
                assert(items.deep_view() =~= dv0.push(ckeys(self.children())[i as int]));
                assert(items.deep_view() =~= seq!["."@, ".."@] + ckeys(self.children()).take(
                    i as int + 1,
                ));
            }
            i = i + 1;
        }
        proof {
            assert(ckeys(self.children()).take(self.children().len() as int) =~= ckeys(
                self.children(),
            ));
        }
        items
    }

    /// Adds an empty directory of four kibibytes under `name`: rejects
    /// the empty name and names already present.
    pub fn create_dir(&mut self, name: &str) -> (r: Result<(), &'static str>)
        requires
            old(self).wf(),
        ensures
            final(self).wf(),
            name@.len() == 0 ==> r == Err::<(), &'static str>("Empty name") && final(self).children()
                == old(self).children(),
            name@.len() > 0 && ckeys(old(self).children()).contains(name@) ==> r == Err::<
                (),
                &'static str,
            >("Already exists") && final(self).children() == old(self).children(),
            name@.len() > 0 && !ckeys(old(self).children()).contains(name@) ==> r is Ok && {
                &&& ckeys(final(self).children()) =~= ckeys(old(self).children()).push(name@)
                &&& final(self).children().last().1.is_dir == true
                &&& final(self).children().last().1.size == 4096
                &&& final(self).children().last().1.name@ == name@
            },
            final(self).current_view() == old(self).current_view(),
    {
        if name.is_empty() {
            return Err("Empty name");
        }
        match find_key(&self.root.children, name) {
            Some(_) => Err("Already exists"),
            None => {
                let item = FileItem {
                    name: String::from_str(name),
                    is_dir: true,
                    size: 4096,
                    children: Vec::new(),
                };
                self.root.children.push((String::from_str(name), item));
                proof {
                    assert(ckeys(self.children()) =~= ckeys(old(self).children()).push(name@));
                    assert(self.children().last().1.is_dir == true);
                    assert(self.children().last().1.size == 4096);
                    assert(self.children().last().1.name@ == name@);
                }
                Ok(())
            },
        }
    }

    /// Removes the child under `name`: the dot entries are refused, a
    /// missing name is reported.
    pub fn delete_item(&mut self, name: &str) -> (r: Result<(), &'static str>)
        requires
            old(self).wf(),
        ensures
            final(self).wf(),
            name@ == "."@ || name@ == ".."@ ==> r == Err::<(), &'static str>(
                "Cannot delete . or ..",
            ) && final(self).children() == old(self).children(),
            name@ != "."@ && name@ != ".."@ && !ckeys(old(self).children()).contains(name@) ==> r
                == Err::<(), &'static str>("Not found") && final(self).children() == old(
                self,
            ).children(),
            name@ != "."@ && name@ != ".."@ && ckeys(old(self).children()).contains(name@) ==> r
                is Ok && final(self).children() =~= old(self).children().remove(
                ckeys(old(self).children()).index_of_first(name@).unwrap(),
            ),
            final(self).current_view() == old(self).current_view(),
    {
        if str_eq(name, ".") || str_eq(name, "..") {
            return Err("Cannot delete . or ..");
        }
        match find_key(&self.root.children, name) {
            Some(i) => {
                self.root.children.remove(i);
                proof {
                    lemma_keys_unique_remove(old(self).children(), i as int);
                }
                Ok(())
            },
            None => Err("Not found"),
        }
    }

    /// Moves the child under `src` to the key `dst`: the stored item
    /// itself is carried over unchanged, recorded name included.
    pub fn move_item(&mut self, src: &str, dst: &str) -> (r: Result<(), &'static str>)
        requires
            old(self).wf(),
        ensures
            final(self).wf(),
            !ckeys(old(self).children()).contains(src@) ==> r == Err::<(), &'static str>(
                "Source not found",
            ) && final(self).children() == old(self).children(),
            ckeys(old(self).children()).contains(src@) ==> r is Ok && {
                let removed = old(self).children().remove(
                    ckeys(old(self).children()).index_of_first(src@).unwrap(),
                );
                &&& clookup(final(self).children(), dst@) == clookup(
                    old(self).children(),
                    src@,
                )
                &&& (!ckeys(removed).contains(dst@) ==> ckeys(final(self).children()) =~= ckeys(
                    removed,
                ).push(dst@))
                &&& (ckeys(removed).contains(dst@) ==> ckeys(final(self).children()) =~= ckeys(
                    removed,
                ))
            },
            final(self).current_view() == old(self).current_view(),
    {
        match find_key(&self.root.children, src) {
            None => Err("Source not found"),
            Some(i) => {
                let pair = self.root.children.remove(i);
                let item = pair.1;
                proof {
                    lemma_keys_unique_remove(old(self).children(), i as int);
                }
                assoc_put(&mut self.root.children, String::from_str(dst), item);
                Ok(())
            },
        }
    }

    /// Copies the child under `src` to a fresh, childless item under
    /// `dst`, renamed to `dst` and keeping kind and size.
    pub fn copy_item(&mut self, src: &str, dst: &str) -> (r: Result<(), &'static str>)
        requires
            old(self).wf(),
        ensures
            final(self).wf(),
            !ckeys(old(self).children()).contains(src@) ==> r == Err::<(), &'static str>(
                "Source not found",
            ) && final(self).children() == old(self).children(),
            ckeys(old(self).children()).contains(src@) ==> r is Ok && {
                let it = clookup(final(self).children(), dst@);
                let orig = clookup(old(self).children(), src@).unwrap();
                &&& it is Some
                &&& it.unwrap().is_dir == orig.is_dir
                &&& it.unwrap().size == orig.size
                &&& it.unwrap().name@ == dst@
                &&& it.unwrap().children@.len() == 0
                &&& (!ckeys(old(self).children()).contains(dst@) ==> ckeys(
                    final(self).children(),
                ) =~= ckeys(old(self).children()).push(dst@))
                &&& (ckeys(old(self).children()).contains(dst@) ==> ckeys(final(self).children())
                    =~= ckeys(old(self).children()))
            },
            final(self).current_view() == old(self).current_view(),
    {
        match find_key(&self.root.children, src) {
            None => Err("Source not found"),
            Some(i) => {
                let is_dir = self.root.children[i].1.is_dir;
                let size = self.root.children[i].1.size;
                let new_item = FileItem {
                    name: String::from_str(dst),
                    is_dir,
                    size,
                    children: Vec::new(),
                };
                assoc_put(&mut self.root.children, String::from_str(dst), new_item);
                Ok(())
            },
        }
    }
}

/// Removing one child keeps the remaining keys unique.
proof fn lemma_keys_unique_remove(s: Seq<(String, FileItem)>, i: int)
    requires
        keys_unique(s),
        0 <= i < s.len(),
    ensures
        keys_unique(s.remove(i)),
{
    s.remove_ensures(i);
    assert forall|p: int, q: int| 0 <= p < q < s.remove(i).len() implies ckeys(s.remove(i))[p]
        != ckeys(s.remove(i))[q] by {
        let p1: int = if p < i {
            p
        } else {
            p + 1
        };
        let q1: int = if q < i {
            q
        } else {
            q + 1
        };
        assert(s.remove(i)[p] == s[p1]);
        assert(s.remove(i)[q] == s[q1]);
        assert(ckeys(s)[p1] != ckeys(s)[q1]);
    }
}

/// Stores `item` under `key`: replaces the first entry under that key,
/// or appends a new one.
fn assoc_put(children: &mut Vec<(String, FileItem)>, key: String, item: FileItem)
    requires
        keys_unique(old(children)@),
    ensures
        keys_unique(final(children)@),
        clookup(final(children)@, key@) == Some(item),
        !ckeys(old(children)@).contains(key@) ==> ckeys(final(children)@) =~= ckeys(
            old(children)@,
        ).push(key@),
        ckeys(old(children)@).contains(key@) ==> ckeys(final(children)@) =~= ckeys(
            old(children)@,
        ),
{
    match find_key(children, key.as_str()) {
        Some(i) => {
            children[i] = (key, item);
            proof {
                assert(ckeys(children@) =~= ckeys(old(children)@));
                ckeys(children@).index_of_first_ensures(key@);
                assert(ckeys(children@).index_of_first(key@) == Some(i as int));
            }
        },
        None => {
            children.push((key, item));
            proof {
                assert(ckeys(children@) =~= ckeys(old(children)@).push(key@));
                let n = children@.len() as int;
                assert(ckeys(children@)[n - 1] == key@);
                assert(ckeys(children@).contains(key@));
                assert(forall|j: int|
                    0 <= j < n - 1 ==> #[trigger] ckeys(children@)[j] == ckeys(old(children)@)[j]);
                assert(forall|j: int| 0 <= j < n - 1 ==> ckeys(children@)[j] != key@) by {
                    assert(forall|j: int|
                        0 <= j < n - 1 ==> #[trigger] ckeys(old(children)@)[j] != key@);
                }
                ckeys(children@).index_of_first_ensures(key@);
                assert(ckeys(children@).index_of_first(key@) == Some(n - 1));
            }
        },
    }
}

} // verus!
