//! The filesystem interface and its in-memory stub: a block device held
//! in memory and a filesystem scaffold over it whose queries return
//! fixed sample answers.

use vstd::prelude::*;
use vstd::string::StringExecFns;

verus! {

/// The filesystem call surface the shell consumes.
pub trait FileSystem {
    /// Reads up to `length` bytes of `path` from `offset`.
    fn read(&self, path: &str, offset: u64, length: u64) -> Result<Vec<u8>, &'static str>;

    /// Writes `data` into `path` at `offset`, returning how much was taken.
    fn write(&self, path: &str, offset: u64, data: &[u8]) -> Result<usize, &'static str>;

    /// Creates the file `path`.
    fn create(&self, path: &str) -> Result<(), &'static str>;

    /// Deletes the file `path`.
    fn delete(&self, path: &str) -> Result<(), &'static str>;

    /// Copies `src` to `dst`, descending when `recursive` is set.
    fn copy_item(&self, src: &str, dst: &str, recursive: bool) -> Result<(), &'static str>;

    /// Lists a directory: name, inode, whether a directory, and size of
    /// each entry.
    fn list_directory(&self, inode_id: u64) -> Result<
        Vec<(String, u64, bool, u64)>,
        &'static str,
    >;

    /// Creates a directory under the given parent, returning its inode.
    fn create_directory(&self, path: &str, parent_inode_id: u64) -> Result<u64, &'static str>;

    /// Deletes a file or directory, descending when `recursive` is set.
    fn delete_item(&self, path: &str, recursive: bool) -> Result<(), &'static str>;

    /// Moves `src` to `dst`.
    fn move_item(&self, src: &str, dst: &str) -> Result<(), &'static str>;
}

/// A block device held entirely in memory.
pub struct MemoryBlockDevice {
    data: Vec<u8>,
    size: u64,
}

impl MemoryBlockDevice {
    /// The device's capacity in bytes.
    pub closed spec fn spec_size(&self) -> u64 {
        self.size
    }

    /// The device's bytes.
    pub closed spec fn spec_data(&self) -> Seq<u8> {
        self.data@
    }

    /// A zeroed device of one mebibyte.
    pub fn new() -> (r: Self)
        ensures
            r.spec_size() == 1048576,
            r.spec_data().len() == 1048576,
            forall|i: int| 0 <= i < r.spec_data().len() ==> r.spec_data()[i] == 0,
    {
        let size: usize = 1048576;
        let mut data: Vec<u8> = Vec::new();
        let mut i: usize = 0;
        while i < size
            invariant
                0 <= i <= size,
                data@.len() == i,
                forall|j: int| 0 <= j < i ==> data@[j] == 0,
            decreases size - i,
        {
            data.push(0);
            i = i + 1;
        }
        MemoryBlockDevice { data, size: 1048576 }
    }
}

/// The filesystem scaffold: it owns its device and answers queries with
/// fixed sample data until a real layout is written to the device.
pub struct SimpleFileSystem {
    device: MemoryBlockDevice,
}

impl SimpleFileSystem {
    /// A filesystem over the given device.
    pub fn new(device: MemoryBlockDevice) -> (r: Self)
        ensures
            r.device_size() == device.spec_size(),
    {
        SimpleFileSystem { device }
    }

    /// The capacity of the underlying device.
    pub closed spec fn device_size(&self) -> u64 {
        self.device.spec_size()
    }

    /// Prepares the filesystem for use.  The scaffold has no on-device
    /// state to set up, so nothing changes.
    pub fn init(&mut self)
        ensures
            final(self).device_size() == old(self).device_size(),
    {
    }
}

impl FileSystem for SimpleFileSystem {
    fn read(&self, path: &str, offset: u64, length: u64) -> (r: Result<Vec<u8>, &'static str>)
        ensures
            r matches Ok(v) && v@ == Seq::<u8>::empty(),
    {
        Ok(Vec::new())
    }

    fn write(&self, path: &str, offset: u64, data: &[u8]) -> (r: Result<usize, &'static str>)
        ensures
            r == Ok::<usize, &'static str>(data@.len() as usize),
    {
        Ok(data.len())
    }

    fn create(&self, path: &str) -> (r: Result<(), &'static str>)
        ensures
            r is Ok,
    {
        Ok(())
    }

    fn delete(&self, path: &str) -> (r: Result<(), &'static str>)
        ensures
            r is Ok,
    {
        Ok(())
    }

    fn copy_item(&self, src: &str, dst: &str, recursive: bool) -> (r: Result<(), &'static str>)
        ensures
            r is Ok,
    {
        Ok(())
    }

    fn list_directory(&self, inode_id: u64) -> (r: Result<Vec<(String, u64, bool, u64)>, &'static str>)
        ensures
            r matches Ok(v) && v@.len() == 3,
            r matches Ok(v) ==> {
                &&& v@[0].0@ == "."@ && v@[0].1 == 0 && v@[0].2 == true && v@[0].3 == 0
                &&& v@[1].0@ == ".."@ && v@[1].1 == 1 && v@[1].2 == true && v@[1].3 == 0
                &&& v@[2].0@ == "example.txt"@ && v@[2].1 == 2 && v@[2].2 == false && v@[2].3
                    == 1024
            },
    {
        let mut v: Vec<(String, u64, bool, u64)> = Vec::new();
        v.push((String::from_str("."), 0, true, 0));
        v.push((String::from_str(".."), 1, true, 0));
        v.push((String::from_str("example.txt"), 2, false, 1024));
        Ok(v)
    }

    fn create_directory(&self, path: &str, parent_inode_id: u64) -> (r: Result<u64, &'static str>)
        ensures
            r == Ok::<u64, &'static str>(100u64),
    {
        Ok(100)
    }

    fn delete_item(&self, path: &str, recursive: bool) -> (r: Result<(), &'static str>)
        ensures
            r is Ok,
    {
        Ok(())
    }

    fn move_item(&self, src: &str, dst: &str) -> (r: Result<(), &'static str>)
        ensures
            r is Ok,
    {
        Ok(())
    }
}

} // verus!
