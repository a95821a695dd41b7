//! The hierarchical filesystem model: a tree of named items, a current
//! path into it, and operations that act on the directory the path
//! designates.

use vstd::prelude::*;
use vstd::string::StringExecFns;
use crate::text::str_eq;
use crate::text::u64_to_string;

verus! {

/// One file or directory of the tree.
#[derive(Debug)]
#[verifier::ext_equal]
pub struct FileSystemItem {
    pub name: String,
    pub is_directory: bool,
    pub size: u32,
    pub contents: Option<String>,
    pub children: Vec<(String, FileSystemItem)>,
}

/// The key of every child, in storage order.
pub open spec fn tkeys(s: Seq<(String, FileSystemItem)>) -> Seq<Seq<char>> {
    s.map_values(|p: (String, FileSystemItem)| p.0@)
}

/// The first child stored under a key, if any.
pub open spec fn tlookup(s: Seq<(String, FileSystemItem)>, k: Seq<char>) -> Option<FileSystemItem> {
    match tkeys(s).index_of_first(k) {
        Some(i) => Some(s[i].1),
        None => None,
    }
}

/// The item a path designates from `item`, walking from segment `i`: a
/// segment that resolves descends, one that does not is passed over.
pub open spec fn spec_item_at(item: FileSystemItem, path: Seq<Seq<char>>, i: int) -> FileSystemItem
    decreases path.len() - i,
{
    if i < 0 || i >= path.len() {
        item
    } else {
        match tlookup(item.children@, path[i]) {
            Some(c) => spec_item_at(c, path, i + 1),
            None => spec_item_at(item, path, i + 1),
        }
    }
}

/// Every remaining segment of the path resolves.
pub open spec fn spec_path_ok(item: FileSystemItem, path: Seq<Seq<char>>, i: int) -> bool
    decreases path.len() - i,
{
    i >= path.len() || (i >= 0 && match tlookup(item.children@, path[i]) {
        Some(c) => spec_path_ok(c, path, i + 1),
        None => false,
    })
}

/// Finds the first child stored under `key`.
fn find_child(children: &Vec<(String, FileSystemItem)>, key: &str) -> (r: Option<usize>)
    ensures
        match r {
            Some(i) => {
                &&& tkeys(children@).index_of_first(key@) == Some(i as int)
                &&& tkeys(children@).contains(key@)
                &&& i < children@.len()
                &&& children@[i as int].0@ == key@
                &&& tlookup(children@, key@) == Some(children@[i as int].1)
            },
            None => !tkeys(children@).contains(key@) && tlookup(children@, key@) is None,
        },
{
    let mut i: usize = 0;
    while i < children.len()
        invariant
            0 <= i <= children@.len(),
            forall|j: int| 0 <= j < i ==> tkeys(children@)[j] != key@,
        decreases children@.len() - i,
    {
        if str_eq(children[i].0.as_str(), key) {
            proof {
                assert(tkeys(children@)[i as int] == key@);
                assert(tkeys(children@).contains(key@));
                tkeys(children@).index_of_first_ensures(key@);
            }
            return Some(i);
        }
        i = i + 1;
    }
    proof {
        assert(forall|j: int| 0 <= j < tkeys(children@).len() ==> tkeys(children@)[j] != key@);
        assert(!tkeys(children@).contains(key@));
        tkeys(children@).index_of_first_ensures(key@);
    }
    None
}

/// The item the whole remaining path designates, read-only.
fn dir_at<'a>(item: &'a FileSystemItem, path: &Vec<String>, i: usize) -> (r: &'a FileSystemItem)
    requires
        i <= path@.len(),
    ensures
        *r == spec_item_at(*item, path.deep_view(), i as int),
    decreases path@.len() - i,
{
    if i >= path.len() {
        item
    } else {
        match find_child(&item.children, path[i].as_str()) {
            Some(j) => {
                proof {
                    assert(path.deep_view()[i as int] == path@[i as int]@);
                }
                let sub: &FileSystemItem = &item.children[j].1;
                dir_at(sub, path, i + 1)
            },
            None => {
                proof {
                    assert(path.deep_view()[i as int] == path@[i as int]@);
                }
                dir_at(item, path, i + 1)
            },
        }
    }
}

/// Creates a directory named `name` in the directory the path
/// designates from `item`.
fn create_at(item: &mut FileSystemItem, path: &Vec<String>, i: usize, name: &str) -> (r: Result<
    (),
    &'static str,
>)
    requires
        i <= path@.len(),
        spec_path_ok(*old(item), path.deep_view(), i as int),
    ensures
        spec_path_ok(*final(item), path.deep_view(), i as int),
        ({
            let t0 = spec_item_at(*old(item), path.deep_view(), i as int);
            let t1 = spec_item_at(*final(item), path.deep_view(), i as int);
            &&& (r is Err ==> t1 == t0)
            &&& (!t0.is_directory ==> r == Err::<(), &'static str>(
                "Current location is not a directory",
            ))
            &&& (t0.is_directory && tkeys(t0.children@).contains(name@) ==> r == Err::<
                (),
                &'static str,
            >("Directory already exists"))
            &&& (t0.is_directory && !tkeys(t0.children@).contains(name@) ==> r is Ok && {
                &&& tkeys(t1.children@) =~= tkeys(t0.children@).push(name@)
                &&& t1.children@.drop_last() =~= t0.children@
                &&& t1.children@.last().0@ == name@
                &&& t1.children@.last().1.is_directory == true
                &&& t1.children@.last().1.size == 4096
                &&& t1.children@.last().1.name@ == name@
                &&& t1.children@.last().1.contents is None
                &&& t1.children@.last().1.children@.len() == 0
                &&& t1.is_directory == t0.is_directory
            })
        }),
    decreases path@.len() - i,
{
    if i >= path.len() {
        if !item.is_directory {
            return Err("Current location is not a directory");
        }
        match find_child(&item.children, name) {
            Some(_) => Err("Directory already exists"),
            None => {
                let new_item = FileSystemItem {
                    name: String::from_str(name),
                    is_directory: true,
                    size: 4096,
                    contents: None,
                    children: Vec::new(),
                };
                item.children.push((String::from_str(name), new_item));
                proof {
                    assert(tkeys(item.children@) =~= tkeys(old(item).children@).push(name@));
                    assert(item.children@.drop_last() =~= old(item).children@);
                }
                Ok(())
            },
        }
    } else {
        proof {
            assert(path.deep_view()[i as int] == path@[i as int]@);
        }
        match find_child(&item.children, path[i].as_str()) {
            None => {
                proof {
                    assert(false);
                }
                Err("Directory not found")
            },
            Some(j) => {
                let ghost c0 = item.children@;
                let pair = &mut item.children[j];
                let r = create_at(&mut pair.1, path, i + 1, name);
                proof {
                    let pdv = path.deep_view();
                    let k = pdv[i as int];
                    assert(item.children@ =~= c0.update(j as int, item.children@[j as int]));
                    assert(item.children@[j as int].0 == c0[j as int].0);
                    assert(tkeys(item.children@) =~= tkeys(c0));
                    tkeys(item.children@).index_of_first_ensures(k);
                    tkeys(c0).index_of_first_ensures(k);
                    assert(tkeys(item.children@).index_of_first(k) == Some(j as int));
                    assert(tlookup(item.children@, k) == Some(item.children@[j as int].1));
                    assert(spec_item_at(*item, pdv, i as int) == spec_item_at(
                        item.children@[j as int].1,
                        pdv,
                        i as int + 1,
                    ));
                    assert(spec_item_at(*old(item), pdv, i as int) == spec_item_at(
                        c0[j as int].1,
                        pdv,
                        i as int + 1,
                    ));
                }
                r
            },
        }
    }
}

/// Looking a key up after one child was swapped for another under the
/// same key finds the new child.
pub broadcast proof fn lemma_tlookup_update(
    c0: Seq<(String, FileSystemItem)>,
    j: int,
    p: (String, FileSystemItem),
    k: Seq<char>,
)
    requires
        0 <= j < c0.len(),
        tkeys(c0).index_of_first(k) == Some(j),
        p.0 == c0[j].0,
    ensures
        #[trigger] tlookup(c0.update(j, p), k) == Some(p.1),
{
    assert(tkeys(c0.update(j, p)) =~= tkeys(c0));
}

/// The directory the whole remaining path designates, for mutation: the
/// borrow leads to the same item the read-only walk finds, and however
/// the caller rewrites that item, the path stays valid and still leads
/// there.
fn descend_mut<'a>(item: &'a mut FileSystemItem, path: &Vec<String>, i: usize) -> (r:
    &'a mut FileSystemItem)
    requires
        i <= path@.len(),
        spec_path_ok(*old(item), path.deep_view(), i as int),
    ensures
        *r == spec_item_at(*old(item), path.deep_view(), i as int),
        spec_item_at(*final(item), path.deep_view(), i as int) == *final(r),
        spec_path_ok(*final(item), path.deep_view(), i as int),
    decreases path@.len() - i,
{
    broadcast use lemma_tlookup_update;

    if i >= path.len() {
        item
    } else {
        proof {
            assert(path.deep_view()[i as int] == path@[i as int]@);
        }
        match find_child(&item.children, path[i].as_str()) {
            None => {
                proof {
                    assert(false);
                }
                item
            },
            Some(j) => {
                let pair = &mut item.children[j];
                descend_mut(&mut pair.1, path, i + 1)
            },
        }
    }
}

/// Stores `it` under `key`: replaces the first entry under that key, or
/// appends a new one.  Every other entry stays exactly where it was.
fn tput(children: &mut Vec<(String, FileSystemItem)>, key: String, it: FileSystemItem)
    ensures
        tlookup(final(children)@, key@) == Some(it),
        !tkeys(old(children)@).contains(key@) ==> tkeys(final(children)@) =~= tkeys(
            old(children)@,
        ).push(key@),
        tkeys(old(children)@).contains(key@) ==> tkeys(final(children)@) =~= tkeys(
            old(children)@,
        ),
        forall|q: int|
            0 <= q < old(children)@.len() && tkeys(old(children)@).index_of_first(key@) != Some(q)
                ==> final(children)@[q] == old(children)@[q],
{
    match find_child(children, key.as_str()) {
        Some(i) => {
            children[i] = (key, it);
            proof {
                assert(tkeys(children@) =~= tkeys(old(children)@));
                tkeys(children@).index_of_first_ensures(key@);
                assert(tkeys(children@).index_of_first(key@) == Some(i as int));
            }
        },
        None => {
            children.push((key, it));
            proof {
                assert(tkeys(children@) =~= tkeys(old(children)@).push(key@));
                let n = children@.len() as int;
                assert(tkeys(children@)[n - 1] == key@);
                assert(tkeys(children@).contains(key@));
                assert(forall|j: int|
                    0 <= j < n - 1 ==> #[trigger] tkeys(children@)[j] == tkeys(old(children)@)[j]);
                assert(forall|j: int| 0 <= j < n - 1 ==> tkeys(children@)[j] != key@) by {
                    assert(forall|j: int|
                        0 <= j < n - 1 ==> #[trigger] tkeys(old(children)@)[j] != key@);
                }
                tkeys(children@).index_of_first_ensures(key@);
                assert(tkeys(children@).index_of_first(key@) == Some(n - 1));
            }
        },
    }
}

/// Deletes the child named `name` from the directory the path
/// designates.
fn delete_at(item: &mut FileSystemItem, path: &Vec<String>, i: usize, name: &str) -> (r: Result<
    (),
    &'static str,
>)
    requires
        i <= path@.len(),
        spec_path_ok(*old(item), path.deep_view(), i as int),
    ensures
        spec_path_ok(*final(item), path.deep_view(), i as int),
        ({
            let t0 = spec_item_at(*old(item), path.deep_view(), i as int);
            let t1 = spec_item_at(*final(item), path.deep_view(), i as int);
            &&& (r is Err ==> t1 == t0)
            &&& (name@ == "."@ || name@ == ".."@ ==> r == Err::<(), &'static str>(
                "Cannot delete . or ..",
            ))
            &&& (name@ != "."@ && name@ != ".."@ && !tkeys(t0.children@).contains(name@) ==> r
                == Err::<(), &'static str>("File or directory not found"))
            &&& (name@ != "."@ && name@ != ".."@ && tkeys(t0.children@).contains(name@) ==> r
                is Ok && t1.children@ =~= t0.children@.remove(
                tkeys(t0.children@).index_of_first(name@).unwrap(),
            ) && tkeys(t1.children@) =~= tkeys(t0.children@).remove(
                tkeys(t0.children@).index_of_first(name@).unwrap(),
            ) && t1.is_directory == t0.is_directory)
        }),
    decreases path@.len() - i,
{
    if i >= path.len() {
        if str_eq(name, ".") || str_eq(name, "..") {
            return Err("Cannot delete . or ..");
        }
        match find_child(&item.children, name) {
            Some(j) => {
                item.children.remove(j);
                proof {
                    assert(tkeys(item.children@) =~= tkeys(old(item).children@).remove(j as int));
                }
                Ok(())
            },
            None => Err("File or directory not found"),
        }
    } else {
        proof {
            assert(path.deep_view()[i as int] == path@[i as int]@);
        }
        match find_child(&item.children, path[i].as_str()) {
            None => {
                proof {
                    assert(false);
                }
                Err("File or directory not found")
            },
            Some(j) => {
                let ghost c0 = item.children@;
                let pair = &mut item.children[j];
                let r = delete_at(&mut pair.1, path, i + 1, name);
                proof {
                    let pdv = path.deep_view();
                    let k = pdv[i as int];
                    assert(item.children@ =~= c0.update(j as int, item.children@[j as int]));
                    assert(item.children@[j as int].0 == c0[j as int].0);
                    assert(tkeys(item.children@) =~= tkeys(c0));
                    tkeys(item.children@).index_of_first_ensures(k);
                    tkeys(c0).index_of_first_ensures(k);
                    assert(tkeys(item.children@).index_of_first(k) == Some(j as int));
                    assert(tlookup(item.children@, k) == Some(item.children@[j as int].1));
                    assert(spec_item_at(*item, pdv, i as int) == spec_item_at(
                        item.children@[j as int].1,
                        pdv,
                        i as int + 1,
                    ));
                    assert(spec_item_at(*old(item), pdv, i as int) == spec_item_at(
                        c0[j as int].1,
                        pdv,
                        i as int + 1,
                    ));
                }
                r
            },
        }
    }
}

/// Moves the child under `src` to the key `dst` in the directory the
/// path designates.
fn move_at(item: &mut FileSystemItem, path: &Vec<String>, i: usize, src: &str, dst: &str) -> (r:
    Result<(), &'static str>)
    requires
        i <= path@.len(),
        spec_path_ok(*old(item), path.deep_view(), i as int),
    ensures
        spec_path_ok(*final(item), path.deep_view(), i as int),
        ({
            let t0 = spec_item_at(*old(item), path.deep_view(), i as int);
            let t1 = spec_item_at(*final(item), path.deep_view(), i as int);
            &&& (r is Err ==> t1 == t0)
            &&& (src@ == dst@ ==> r is Ok && t1 == t0)
            &&& (src@ != dst@ && !tkeys(t0.children@).contains(src@) ==> r == Err::<
                (),
                &'static str,
            >("Source not found"))
            &&& (src@ != dst@ && tkeys(t0.children@).contains(src@) ==> r is Ok && {
                let moved = tlookup(t0.children@, src@).unwrap();
                let rem = tkeys(t0.children@).remove(
                    tkeys(t0.children@).index_of_first(src@).unwrap(),
                );
                &&& tlookup(t1.children@, dst@) == Some(moved)
                &&& (!rem.contains(dst@) ==> tkeys(t1.children@) =~= rem.push(dst@))
                &&& (rem.contains(dst@) ==> tkeys(t1.children@) =~= rem)
                &&& t1.is_directory == t0.is_directory
            })
        }),
    decreases path@.len() - i,
{
    if i >= path.len() {
        if str_eq(src, dst) {
            return Ok(());
        }
        match find_child(&item.children, src) {
            None => Err("Source not found"),
            Some(j) => {
                let pair = item.children.remove(j);
                let moved = pair.1;
                proof {
                    assert(tkeys(item.children@) =~= tkeys(old(item).children@).remove(j as int));
                }
                tput(&mut item.children, String::from_str(dst), moved);
                Ok(())
            },
        }
    } else {
        proof {
            assert(path.deep_view()[i as int] == path@[i as int]@);
        }
        match find_child(&item.children, path[i].as_str()) {
            None => {
                proof {
                    assert(false);
                }
                Err("Source not found")
            },
            Some(j) => {
                let ghost c0 = item.children@;
                let pair = &mut item.children[j];
                let r = move_at(&mut pair.1, path, i + 1, src, dst);
                proof {
                    let pdv = path.deep_view();
                    let k = pdv[i as int];
                    assert(item.children@ =~= c0.update(j as int, item.children@[j as int]));
                    assert(item.children@[j as int].0 == c0[j as int].0);
                    assert(tkeys(item.children@) =~= tkeys(c0));
                    tkeys(item.children@).index_of_first_ensures(k);
                    tkeys(c0).index_of_first_ensures(k);
                    assert(tkeys(item.children@).index_of_first(k) == Some(j as int));
                    assert(tlookup(item.children@, k) == Some(item.children@[j as int].1));
                    assert(spec_item_at(*item, pdv, i as int) == spec_item_at(
                        item.children@[j as int].1,
                        pdv,
                        i as int + 1,
                    ));
                    assert(spec_item_at(*old(item), pdv, i as int) == spec_item_at(
                        c0[j as int].1,
                        pdv,
                        i as int + 1,
                    ));
                }
                r
            },
        }
    }
}

/// Copies the child under `src` to a fresh, childless item under `dst`
/// in the directory the path designates.
fn copy_at(item: &mut FileSystemItem, path: &Vec<String>, i: usize, src: &str, dst: &str) -> (r:
    Result<(), &'static str>)
    requires
        i <= path@.len(),
        spec_path_ok(*old(item), path.deep_view(), i as int),
    ensures
        spec_path_ok(*final(item), path.deep_view(), i as int),
        ({
            let t0 = spec_item_at(*old(item), path.deep_view(), i as int);
            let t1 = spec_item_at(*final(item), path.deep_view(), i as int);
            &&& (r is Err ==> t1 == t0)
            &&& (src@ == dst@ ==> r == Err::<(), &'static str>(
                "Source and destination are the same",
            ))
            &&& (src@ != dst@ && !tkeys(t0.children@).contains(src@) ==> r == Err::<
                (),
                &'static str,
            >("Source not found"))
            &&& (src@ != dst@ && tkeys(t0.children@).contains(src@) ==> r is Ok && {
                let orig = tlookup(t0.children@, src@).unwrap();
                let put = tlookup(t1.children@, dst@);
                &&& put is Some
                &&& put.unwrap().is_directory == orig.is_directory
                &&& put.unwrap().size == orig.size
                &&& put.unwrap().contents == orig.contents
                &&& put.unwrap().name@ == dst@
                &&& put.unwrap().children@.len() == 0
                &&& tlookup(t1.children@, src@) == tlookup(t0.children@, src@)
                &&& (!tkeys(t0.children@).contains(dst@) ==> tkeys(t1.children@) =~= tkeys(
                    t0.children@,
                ).push(dst@))
                &&& (tkeys(t0.children@).contains(dst@) ==> tkeys(t1.children@) =~= tkeys(
                    t0.children@,
                ))
                &&& t1.is_directory == t0.is_directory
            })
        }),
    decreases path@.len() - i,
{
    if i >= path.len() {
        if str_eq(src, dst) {
            return Err("Source and destination are the same");
        }
        match find_child(&item.children, src) {
            None => Err("Source not found"),
            Some(j) => {
                let ghost c0 = item.children@;
                let is_directory = item.children[j].1.is_directory;
                let size = item.children[j].1.size;
                let contents = match &item.children[j].1.contents {
                    Some(text) => Some(text.clone()),
                    None => None,
                };
                proof {
                    assert(contents == c0[j as int].1.contents);
                }
                let new_item = FileSystemItem {
                    name: String::from_str(dst),
                    is_directory,
                    size,
                    contents,
                    children: Vec::new(),
                };
                tput(&mut item.children, String::from_str(dst), new_item);
                proof {
                    let ks0 = tkeys(c0);
                    let ks1 = tkeys(item.children@);
                    ks0.index_of_first_ensures(dst@);
                    ks0.index_of_first_ensures(src@);
                    assert(ks0.index_of_first(dst@) != Some(j as int));
                    assert(item.children@[j as int] == c0[j as int]);
                    assert(ks1[j as int] == src@);
                    assert(ks1.contains(src@));
                    ks1.index_of_first_ensures(src@);
                    assert(forall|q: int| 0 <= q < j ==> ks0[q] != src@);
                    assert(forall|q: int| 0 <= q < j ==> #[trigger] ks1[q] == ks0[q]);
                    assert(ks1.index_of_first(src@) == Some(j as int));
                }
                Ok(())
            },
        }
    } else {
        proof {
            assert(path.deep_view()[i as int] == path@[i as int]@);
        }
        match find_child(&item.children, path[i].as_str()) {
            None => {
                proof {
                    assert(false);
                }
                Err("Source not found")
            },
            Some(j) => {
                let ghost c0 = item.children@;
                let pair = &mut item.children[j];
                let r = copy_at(&mut pair.1, path, i + 1, src, dst);
                proof {
                    let pdv = path.deep_view();
                    let k = pdv[i as int];
                    assert(item.children@ =~= c0.update(j as int, item.children@[j as int]));
                    assert(item.children@[j as int].0 == c0[j as int].0);
                    assert(tkeys(item.children@) =~= tkeys(c0));
                    tkeys(item.children@).index_of_first_ensures(k);
                    tkeys(c0).index_of_first_ensures(k);
                    assert(tkeys(item.children@).index_of_first(k) == Some(j as int));
                    assert(tlookup(item.children@, k) == Some(item.children@[j as int].1));
                    assert(spec_item_at(*item, pdv, i as int) == spec_item_at(
                        item.children@[j as int].1,
                        pdv,
                        i as int + 1,
                    ));
                    assert(spec_item_at(*old(item), pdv, i as int) == spec_item_at(
                        c0[j as int].1,
                        pdv,
                        i as int + 1,
                    ));
                }
                r
            },
        }
    }
}

/// Whether the entry is hidden from plain listings.
pub open spec fn spec_hidden(p: (String, FileSystemItem)) -> bool {
    p.0@.len() > 0 && p.0@[0] == '.'
}

/// The listing line one child produces.
pub open spec fn spec_entry(p: (String, FileSystemItem), long_format: bool) -> Seq<char> {
    if long_format {
        (if p.1.is_directory {
            seq!['d']
        } else {
            seq!['-']
        }) + " rwxr-xr-x "@ + crate::terminal::spec_format_size(p.1.size as u64) + " "@ + p.0@
    } else {
        p.0@
    }
}

/// The listing lines of the children from position `i` on, hidden ones
/// left out unless `show_all` is set.
pub open spec fn spec_entries_from(
    s: Seq<(String, FileSystemItem)>,
    show_all: bool,
    long_format: bool,
    i: int,
) -> Seq<Seq<char>>
    decreases s.len() - i,
{
    if i < 0 || i >= s.len() {
        Seq::empty()
    } else if !show_all && spec_hidden(s[i]) {
        spec_entries_from(s, show_all, long_format, i + 1)
    } else {
        seq![spec_entry(s[i], long_format)] + spec_entries_from(s, show_all, long_format, i + 1)
    }
}

/// The path string: the root alone, or a slash before every segment.
pub open spec fn spec_join_path(path: Seq<Seq<char>>, i: int) -> Seq<char>
    decreases path.len() - i,
{
    if i < 0 || i >= path.len() {
        Seq::empty()
    } else {
        seq!['/'] + path[i] + spec_join_path(path, i + 1)
    }
}

/// The rendered current path.
pub open spec fn spec_path_string(path: Seq<Seq<char>>) -> Seq<char> {
    if path.len() == 0 {
        seq!['/']
    } else {
        spec_join_path(path, 0)
    }
}

/// Renders one size for a listing line.
pub fn format_size(size: u32) -> (r: String)
    ensures
        r@ == crate::terminal::spec_format_size(size as u64),
{
    if size >= 1048576 {
        let mut s = u64_to_string((size / 1048576) as u64);
        s.append(".");
        s.append(crate::text::digit_str(((size % 1048576) * 10 / 1048576) as u64));
        s.append("M");
        proof {
            reveal_strlit(".");
            reveal_strlit("M");
            assert(s@ =~= crate::terminal::spec_format_size(size as u64));
        }
        s
    } else if size >= 1024 {
        let mut s = u64_to_string((size / 1024) as u64);
        s.append(".");
        s.append(crate::text::digit_str(((size % 1024) * 10 / 1024) as u64));
        s.append("K");
        proof {
            reveal_strlit(".");
            reveal_strlit("K");
            assert(s@ =~= crate::terminal::spec_format_size(size as u64));
        }
        s
    } else {
        let mut s = u64_to_string(size as u64);
        s.append("B");
        proof {
            reveal_strlit("B");
            assert(s@ =~= crate::terminal::spec_format_size(size as u64));
        }
        s
    }
}

/// A valid path stays valid when its last segment is dropped.
proof fn lemma_path_ok_drop_last(item: FileSystemItem, path: Seq<Seq<char>>, i: int)
    requires
        path.len() > 0,
        spec_path_ok(item, path, i),
    ensures
        spec_path_ok(item, path.drop_last(), i),
    decreases path.len() - i,
{
    if i < path.len() - 1 && 0 <= i {
        assert(path.drop_last()[i] == path[i]);
        match tlookup(item.children@, path[i]) {
            Some(c) => {
                lemma_path_ok_drop_last(c, path, i + 1);
            },
            None => {},
        }
    }
}

/// A valid path stays valid when a segment that resolves to one of the
/// designated directory's children is appended.
proof fn lemma_path_ok_push(item: FileSystemItem, path: Seq<Seq<char>>, i: int, k: Seq<char>)
    requires
        0 <= i <= path.len(),
        spec_path_ok(item, path, i),
        tlookup(spec_item_at(item, path, i).children@, k) is Some,
    ensures
        spec_path_ok(item, path.push(k), i),
    decreases path.len() - i,
{
    if i == path.len() {
        assert(path.push(k)[i] == k);
        assert(spec_item_at(item, path, i) == item);
        assert(spec_path_ok(tlookup(item.children@, k).unwrap(), path.push(k), i + 1));
    } else {
        assert(path.push(k)[i] == path[i]);
        let c = tlookup(item.children@, path[i]).unwrap();
        assert(spec_item_at(item, path, i) == spec_item_at(c, path, i + 1));
        lemma_path_ok_push(c, path, i + 1, k);
    }
}

/// Walking a pushed path designates the child the new segment names.
proof fn lemma_item_at_push(item: FileSystemItem, path: Seq<Seq<char>>, i: int, k: Seq<char>)
    requires
        0 <= i <= path.len(),
        spec_path_ok(item, path, i),
        tlookup(spec_item_at(item, path, i).children@, k) is Some,
    ensures
        spec_item_at(item, path.push(k), i) == tlookup(
            spec_item_at(item, path, i).children@,
            k,
        ).unwrap(),
    decreases path.len() - i,
{
    if i == path.len() {
        assert(path.push(k)[i] == k);
        assert(spec_item_at(item, path, i) == item);
        assert(spec_item_at(tlookup(item.children@, k).unwrap(), path.push(k), i + 1)
            == tlookup(item.children@, k).unwrap());
    } else {
        assert(path.push(k)[i] == path[i]);
        let c = tlookup(item.children@, path[i]).unwrap();
        lemma_item_at_push(c, path, i + 1, k);
    }
}

/// The hierarchical filesystem: a tree of items and the path of the
/// directory the operations act on.
pub struct FileSystem {
    root: FileSystemItem,
    current_path: Vec<String>,
}

impl FileSystem {
    /// The whole tree.
    pub closed spec fn root_item(&self) -> FileSystemItem {
        self.root
    }

    /// The current path, segment by segment.
    pub closed spec fn path_dv(&self) -> Seq<Seq<char>> {
        self.current_path.deep_view()
    }

    /// The directory the operations act on.
    pub open spec fn current_dir(&self) -> FileSystemItem {
        spec_item_at(self.root_item(), self.path_dv(), 0)
    }

    /// Every segment of the current path resolves.
    pub open spec fn wf(&self) -> bool {
        spec_path_ok(self.root_item(), self.path_dv(), 0)
    }

    /// The sample tree: two directories and a short read-me at the
    /// root, with the current path at the root.
    pub fn new() -> (r: Self)
        ensures
            r.wf(),
            r.path_dv() == Seq::<Seq<char>>::empty(),
            tkeys(r.current_dir().children@) =~= seq!["bin"@, "etc"@, "README.txt"@],
            r.current_dir().is_directory,
            r.current_dir().children@[0].1.is_directory == true,
            r.current_dir().children@[0].1.size == 1024,
            r.current_dir().children@[1].1.is_directory == true,
            r.current_dir().children@[1].1.size == 2048,
            r.current_dir().children@[2].1.is_directory == false,
            r.current_dir().children@[2].1.size == 512,
            r.current_dir().children@[0].1.children@.len() == 0,
            r.current_dir().children@[1].1.children@.len() == 0,
            r.current_dir().children@[2].1.children@.len() == 0,
            r.current_dir().children@[2].1.contents matches Some(text) && text@
                == "Welcome to TerraOS!"@,
    {
        let mut children: Vec<(String, FileSystemItem)> = Vec::new();
        children.push(
            (
                String::from_str("bin"),
                FileSystemItem {
                    name: String::from_str("bin"),
                    is_directory: true,
                    size: 1024,
                    contents: None,
                    children: Vec::new(),
                },
            ),
        );
        children.push(
            (
                String::from_str("etc"),
                FileSystemItem {
                    name: String::from_str("etc"),
                    is_directory: true,
                    size: 2048,
                    contents: None,
                    children: Vec::new(),
                },
            ),
        );
        children.push(
            (
                String::from_str("README.txt"),
                FileSystemItem {
                    name: String::from_str("README.txt"),
                    is_directory: false,
                    size: 512,
                    contents: Some(String::from_str("Welcome to TerraOS!")),
                    children: Vec::new(),
                },
            ),
        );
        let root = FileSystemItem {
            name: String::from_str("/"),
            is_directory: true,
            size: 0,
            contents: None,
            children,
        };
        let r = FileSystem { root, current_path: Vec::new() };
        proof {
            assert(r.path_dv() =~= Seq::<Seq<char>>::empty());
            assert(r.current_dir() == r.root_item());
            assert(tkeys(r.current_dir().children@) =~= seq!["bin"@, "etc"@, "README.txt"@]);
        }
        r
    }

    /// The directory the current path designates.
    pub fn get_current_dir(&self) -> (r: &FileSystemItem)
        ensures
            *r == self.current_dir(),
    {
        dir_at(&self.root, &self.current_path, 0)
    }

    /// The directory the current path designates, for mutation: however
    /// the caller rewrites it, the path stays valid and still leads to
    /// the rewritten item.
    pub fn get_current_dir_mut(&mut self) -> (r: &mut FileSystemItem)
        requires
            old(self).wf(),
        ensures
            *r == old(self).current_dir(),
            final(self).current_dir() == *final(r),
            final(self).wf(),
            final(self).path_dv() == old(self).path_dv(),
    {
        descend_mut(&mut self.root, &self.current_path, 0)
    }

    /// Creates a directory in the current directory: rejects the empty
    /// name, a non-directory location, and a name already present.
    pub fn create_directory(&mut self, name: &str) -> (r: Result<(), &'static str>)
        requires
            old(self).wf(),
        ensures
            final(self).wf(),
            final(self).path_dv() == old(self).path_dv(),
            name@.len() == 0 ==> r == Err::<(), &'static str>("Directory name cannot be empty")
                && final(self).current_dir() == old(self).current_dir(),
            name@.len() > 0 ==> {
                let t0 = old(self).current_dir();
                let t1 = final(self).current_dir();
                &&& (r is Err ==> t1 == t0)
                &&& (!t0.is_directory ==> r == Err::<(), &'static str>(
                    "Current location is not a directory",
                ))
                &&& (t0.is_directory && tkeys(t0.children@).contains(name@) ==> r == Err::<
                    (),
                    &'static str,
                >("Directory already exists"))
                &&& (t0.is_directory && !tkeys(t0.children@).contains(name@) ==> r is Ok && {
                    &&& tkeys(t1.children@) =~= tkeys(t0.children@).push(name@)
                    &&& t1.children@.drop_last() =~= t0.children@
                    &&& t1.children@.last().0@ == name@
                    &&& t1.children@.last().1.is_directory == true
                    &&& t1.children@.last().1.size == 4096
                    &&& t1.children@.last().1.name@ == name@
                    &&& t1.children@.last().1.contents is None
                    &&& t1.children@.last().1.children@.len() == 0
                })
            },
    {
        if name.is_empty() {
            return Err("Directory name cannot be empty");
        }
        create_at(&mut self.root, &self.current_path, 0, name)
    }

    /// Lists the current directory: the two dot entries, then one line
    /// per child, hidden children left out unless `show_all` is set,
    /// the long format spelling out kind, rights, size and name.
    pub fn list_directory(&self, show_all: bool, long_format: bool) -> (r: Result<
        Vec<String>,
        &'static str,
    >)
        ensures
            !self.current_dir().is_directory ==> r == Err::<Vec<String>, &'static str>(
                "Not a directory",
            ),
            self.current_dir().is_directory ==> (r matches Ok(v) && v.deep_view() =~= seq![
                "."@,
                ".."@,
            ] + spec_entries_from(self.current_dir().children@, show_all, long_format, 0)),
    {
        let current = self.get_current_dir();
        if !current.is_directory {
            return Err("Not a directory");
        }
        let mut entries: Vec<String> = Vec::new();
        entries.push(String::from_str("."));
        entries.push(String::from_str(".."));
        let ghost s = current.children@;
        let mut i: usize = 0;
        proof {
            assert(entries.deep_view() =~= seq!["."@, ".."@]);
        }
        while i < current.children.len()
            invariant
                s == current.children@,
                current.children@.len() == s.len(),
                0 <= i <= s.len(),
                entries.deep_view() + spec_entries_from(s, show_all, long_format, i as int)
                    =~= seq!["."@, ".."@] + spec_entries_from(s, show_all, long_format, 0),
            decreases s.len() - i,
        {
            let name: &String = &current.children[i].0;
            let hidden = name.as_str().unicode_len() > 0 && name.as_str().get_char(0) == '.';
            if show_all || !hidden {
                let ghost dv0 = entries.deep_view();
                if long_format {
                    let mut line = String::new();
                    if current.children[i].1.is_directory {
                        line.append("d");
                    } else {
                        line.append("-");
                    }
                    line.append(" rwxr-xr-x ");
                    let size_str = format_size(current.children[i].1.size);
                    line.append(size_str.as_str());
                    line.append(" ");
                    line.append(name.as_str());
                    proof {
                        reveal_strlit("d");
                        reveal_strlit("-");
                        assert(line@ =~= spec_entry(s[i as int], long_format));
                    }
                    entries.push(line);
                } else {
                    entries.push(name.clone());
                }
                proof {
                    assert(entries.deep_view() =~= dv0.push(spec_entry(s[i as int], long_format)));
                    assert(entries.deep_view() + spec_entries_from(
                        s,
                        show_all,
                        long_format,
                        i as int + 1,
                    ) =~= dv0 + (seq![spec_entry(s[i as int], long_format)] + spec_entries_from(
                        s,
                        show_all,
                        long_format,
                        i as int + 1,
                    )));
                }
            }
            i = i + 1;
        }
        proof {
            assert(spec_entries_from(s, show_all, long_format, s.len() as int)
                =~= Seq::<Seq<char>>::empty());
            assert(entries.deep_view() =~= entries.deep_view() + Seq::<Seq<char>>::empty());
        }
        Ok(entries)
    }

    /// Deletes a child of the current directory: the dot entries are
    /// refused, a missing name is reported.
    pub fn delete_item(&mut self, name: &str, recursive: bool) -> (r: Result<(), &'static str>)
        requires
            old(self).wf(),
        ensures
            final(self).wf(),
            final(self).path_dv() == old(self).path_dv(),
            ({
                let t0 = old(self).current_dir();
                let t1 = final(self).current_dir();
                &&& (r is Err ==> t1 == t0)
                &&& (name@ == "."@ || name@ == ".."@ ==> r == Err::<(), &'static str>(
                    "Cannot delete . or ..",
                ))
                &&& (name@ != "."@ && name@ != ".."@ && !tkeys(t0.children@).contains(name@)
                    ==> r == Err::<(), &'static str>("File or directory not found"))
                &&& (name@ != "."@ && name@ != ".."@ && tkeys(t0.children@).contains(name@) ==> r
                    is Ok && t1.children@ =~= t0.children@.remove(
                    tkeys(t0.children@).index_of_first(name@).unwrap(),
                ))
            }),
    {
        delete_at(&mut self.root, &self.current_path, 0, name)
    }

    /// Changes the current directory: to the root, to the parent, to
    /// itself, or into a child directory by name.
    pub fn change_directory(&mut self, path: &str) -> (r: Result<(), &'static str>)
        requires
            old(self).wf(),
        ensures
            final(self).wf(),
            final(self).root_item() == old(self).root_item(),
            path@ == "/"@ ==> r is Ok && final(self).path_dv() == Seq::<Seq<char>>::empty(),
            path@ == ".."@ ==> r is Ok && final(self).path_dv() == (if old(
                self,
            ).path_dv().len() > 0 {
                old(self).path_dv().drop_last()
            } else {
                old(self).path_dv()
            }),
            path@ == "."@ ==> r is Ok && final(self).path_dv() == old(self).path_dv(),
            path@ != "/"@ && path@ != ".."@ && path@ != "."@ ==> {
                let t0 = old(self).current_dir();
                match tlookup(t0.children@, path@) {
                    Some(c) => {
                        &&& (c.is_directory ==> r is Ok && final(self).path_dv() =~= old(self).path_dv().push(path@)
                            && final(self).current_dir() == c)
                        &&& (!c.is_directory ==> r == Err::<(), &'static str>("Not a directory")
                            && final(self).path_dv() == old(self).path_dv())
                    },
                    None => {
                        &&& r == Err::<(), &'static str>("Directory not found")
                        &&& final(self).path_dv() == old(self).path_dv()
                    },
                }
            },
    {
        proof {
            reveal_strlit("/");
            reveal_strlit("..");
            reveal_strlit(".");
            assert("/"@.len() == 1);
            assert(".."@.len() == 2);
            assert("."@.len() == 1);
            assert("/"@[0] == '/');
            assert("."@[0] == '.');
        }
        if str_eq(path, "/") {
            self.current_path.clear();
            proof {
                assert(self.path_dv() =~= Seq::<Seq<char>>::empty());
            }
            Ok(())
        } else if str_eq(path, "..") {
            if self.current_path.len() > 0 {
                let n = self.current_path.len();
                proof {
                    assert(old(self).path_dv().len() == n);
                }
                self.current_path.truncate(n - 1);
                proof {
                    assert(self.path_dv() =~= old(self).path_dv().drop_last());
                    lemma_path_ok_drop_last(self.root, old(self).path_dv(), 0);
                }
            } else {
                proof {
                    assert(old(self).path_dv().len() == 0);
                }
            }
            Ok(())
        } else if str_eq(path, ".") {
            Ok(())
        } else {
            let current = dir_at(&self.root, &self.current_path, 0);
            match find_child(&current.children, path) {
                Some(j) => {
                    let is_dir = current.children[j].1.is_directory;
                    if is_dir {
                        proof {
                            lemma_path_ok_push(self.root, self.path_dv(), 0, path@);
                            lemma_item_at_push(self.root, self.path_dv(), 0, path@);
                        }
                        self.current_path.push(String::from_str(path));
                        proof {
                            assert(self.path_dv() =~= old(self).path_dv().push(path@));
                        }
                        Ok(())
                    } else {
                        Err("Not a directory")
                    }
                },
                None => Err("Directory not found"),
            }
        }
    }

    /// Moves a child of the current directory to another name there.
    pub fn move_item(&mut self, src: &str, dst: &str) -> (r: Result<(), &'static str>)
        requires
            old(self).wf(),
        ensures
            final(self).wf(),
            final(self).path_dv() == old(self).path_dv(),
            ({
                let t0 = old(self).current_dir();
                let t1 = final(self).current_dir();
                &&& (r is Err ==> t1 == t0)
                &&& (src@ == dst@ ==> r is Ok && t1 == t0)
                &&& (src@ != dst@ && !tkeys(t0.children@).contains(src@) ==> r == Err::<
                    (),
                    &'static str,
                >("Source not found"))
                &&& (src@ != dst@ && tkeys(t0.children@).contains(src@) ==> r is Ok && tlookup(
                    t1.children@,
                    dst@,
                ) == Some(tlookup(t0.children@, src@).unwrap()))
            }),
    {
        move_at(&mut self.root, &self.current_path, 0, src, dst)
    }

    /// Copies a child of the current directory to another name there:
    /// kind, size and contents carry over, children do not.
    pub fn copy_item(&mut self, src: &str, dst: &str, recursive: bool) -> (r: Result<
        (),
        &'static str,
    >)
        requires
            old(self).wf(),
        ensures
            final(self).wf(),
            final(self).path_dv() == old(self).path_dv(),
            ({
                let t0 = old(self).current_dir();
                let t1 = final(self).current_dir();
                &&& (r is Err ==> t1 == t0)
                &&& (src@ == dst@ ==> r == Err::<(), &'static str>(
                    "Source and destination are the same",
                ))
                &&& (src@ != dst@ && !tkeys(t0.children@).contains(src@) ==> r == Err::<
                    (),
                    &'static str,
                >("Source not found"))
                &&& (src@ != dst@ && tkeys(t0.children@).contains(src@) ==> r is Ok && {
                    let orig = tlookup(t0.children@, src@).unwrap();
                    let put = tlookup(t1.children@, dst@);
                    &&& put is Some
                    &&& put.unwrap().is_directory == orig.is_directory
                    &&& put.unwrap().size == orig.size
                    &&& put.unwrap().contents == orig.contents
                    &&& put.unwrap().name@ == dst@
                    &&& put.unwrap().children@.len() == 0
                    &&& tlookup(t1.children@, src@) == tlookup(t0.children@, src@)
                    &&& (!tkeys(t0.children@).contains(dst@) ==> tkeys(t1.children@) =~= tkeys(
                        t0.children@,
                    ).push(dst@))
                    &&& (tkeys(t0.children@).contains(dst@) ==> tkeys(t1.children@) =~= tkeys(
                        t0.children@,
                    ))
                })
            }),
    {
        copy_at(&mut self.root, &self.current_path, 0, src, dst)
    }

    /// Renders the current path: the root alone, or a slash before
    /// every segment.
    pub fn get_current_path(&self) -> (r: String)
        ensures
            r@ == spec_path_string(self.path_dv()),
    {
        if self.current_path.len() == 0 {
            let r = String::from_str("/");
            proof {
                reveal_strlit("/");
                assert(r@ =~= spec_path_string(self.path_dv()));
            }
            return r;
        }
        let mut out = String::new();
        let n = self.current_path.len();
        let mut i: usize = 0;
        while i < n
            invariant
                n == self.path_dv().len(),
                0 <= i <= n,
                out@ + spec_join_path(self.path_dv(), i as int) =~= spec_join_path(
                    self.path_dv(),
                    0,
                ),
            decreases n - i,
        {
            out.append("/");
            out.append(self.current_path[i].as_str());
            proof {
                reveal_strlit("/");
                assert(self.path_dv()[i as int] == self.current_path@[i as int]@);
                assert(out@ + spec_join_path(self.path_dv(), i as int + 1) =~= spec_join_path(
                    self.path_dv(),
                    0,
                ));
            }
            i = i + 1;
        }
        proof {
            assert(spec_join_path(self.path_dv(), n as int) =~= Seq::<char>::empty());
            assert(out@ =~= spec_path_string(self.path_dv()));
        }
        out
    }
}

} // verus!
