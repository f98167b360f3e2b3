use vstd::prelude::*;

use crate::error::ScstError;
use crate::mgmt::Keyed;
use crate::text::{
    base_name, base_of, first_line, line_of, parse_i8, parse_u32, parse_usize, signed_in,
    unsigned_in,
};

verus! {

/// A backing store registered under a handler.
#[derive(Debug, PartialEq, Eq)]
pub struct Device {
    pub root: String,
    pub name: String,
    pub handler: String,
    pub filename: String,
    pub active: i8,
    pub read_only: i8,
    pub size: usize,
    pub blocksize: u32,
}

/// The flag value that an attribute file with content `t` holds.
pub open spec fn flag_of(t: Seq<char>) -> Option<int> {
    signed_in(line_of(t), i8::MIN as int, i8::MAX as int)
}

impl Keyed for Device {
    open spec fn key_spec(&self) -> Seq<char> {
        self.name@
    }

    fn key(&self) -> (r: String) {
        self.name.clone()
    }
}

/// The flag in the first line of an attribute file's content `t`; `attr`
/// names the attribute in the error.
pub fn read_flag(t: &str, attr: &str) -> (r: Result<i8, ScstError>)
    ensures
        flag_of(t@) is Some ==> r is Ok && r->Ok_0 as int == flag_of(t@)->0,
        flag_of(t@) is None ==> r is Err && r->Err_0 is BadValue && r->Err_0->BadValue_0@ == attr@,
{
    let line = first_line(t);
    match parse_i8(line.as_str()) {
        Some(v) => Ok(v),
        None => Err(ScstError::BadValue(String::from_str(attr))),
    }
}

impl Device {
    pub fn name(&self) -> (r: &str)
        ensures
            r@ == self.name@,
    {
        self.name.as_str()
    }

    pub fn handler(&self) -> (r: &str)
        ensures
            r@ == self.handler@,
    {
        self.handler.as_str()
    }

    pub fn filename(&self) -> (r: &str)
        ensures
            r@ == self.filename@,
    {
        self.filename.as_str()
    }

    pub fn is_active(&self) -> (r: bool)
        ensures
            r == (self.active == 1),
    {
        self.active == 1
    }

    pub fn read_only(&self) -> (r: bool)
        ensures
            r == (self.read_only == 1),
    {
        self.read_only == 1
    }

    pub fn size(&self) -> (r: usize)
        ensures
            r == self.size,
    {
        self.size
    }

    pub fn blocksize(&self) -> (r: u32)
        ensures
            r == self.blocksize,
    {
        self.blocksize
    }

    /// Builds the device of the directory `root` from what its entries hold:
    /// the target of its `handler` link and the contents of its attribute
    /// files. The name is the directory's; each attribute is the first line
    /// of its file, and the numeric ones must parse.
    pub fn load(
        root: &str,
        handler_link: &str,
        filename: &str,
        active: &str,
        read_only: &str,
        size: &str,
        blocksize: &str,
    ) -> (r: Result<Device, ScstError>)
        ensures
            r is Ok <==> (flag_of(active@) is Some && flag_of(read_only@) is Some && unsigned_in(
                line_of(size@),
                usize::MAX as int,
            ) is Some && unsigned_in(line_of(blocksize@), u32::MAX as int) is Some),
            r is Err ==> r->Err_0 is BadValue,
            r is Ok ==> ({
                let d = r->Ok_0;
                &&& d.root@ == root@
                &&& d.name@ == base_of(root@)
                &&& d.handler@ == base_of(handler_link@)
                &&& d.filename@ == line_of(filename@)
                &&& d.active as int == flag_of(active@)->0
                &&& d.read_only as int == flag_of(read_only@)->0
                &&& d.size as int == unsigned_in(line_of(size@), usize::MAX as int)->0
                &&& d.blocksize as int == unsigned_in(line_of(blocksize@), u32::MAX as int)->0
            }),
    {
        let active = read_flag(active, "active")?;
        let read_only = read_flag(read_only, "read_only")?;
        let size_line = first_line(size);
        let size = match parse_usize(size_line.as_str()) {
            Some(v) => v,
            None => {
                return Err(ScstError::BadValue(String::from_str("size")));
            },
        };
        let bs_line = first_line(blocksize);
        let blocksize = match parse_u32(bs_line.as_str()) {
            Some(v) => v,
            None => {
                return Err(ScstError::BadValue(String::from_str("blocksize")));
            },
        };
        Ok(
            Device {
                root: String::from_str(root),
                name: base_name(root),
                handler: base_name(handler_link),
                filename: first_line(filename),
                active,
                read_only,
                size,
                blocksize,
            },
        )
    }
}

} // verus!
