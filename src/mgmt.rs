use vstd::prelude::*;

use crate::error::ScstError;
use crate::text::{join, join_spec};

verus! {

/// One write into the control tree: `text` goes into the file at `path`.
/// When the write fails, `on_fail` is the error to report, if the operation
/// has one of its own.
#[derive(Debug, PartialEq, Eq)]
pub struct ControlWrite {
    pub path: String,
    pub text: String,
    pub on_fail: Option<ScstError>,
}

/// The path of the command file of the entity at `root`.
pub open spec fn mgmt_path(root: Seq<char>) -> Seq<char> {
    join_spec(root, "mgmt"@)
}

/// The path of the switch that enables the entity at `root`.
pub open spec fn enabled_path(root: Seq<char>) -> Seq<char> {
    join_spec(root, "enabled"@)
}

/// Whether `r` is the write of `text` to `path`.
pub open spec fn is_write(r: Result<ControlWrite, ScstError>, path: Seq<char>, text: Seq<char>) -> bool {
    r is Ok && r->Ok_0.path@ == path && r->Ok_0.text@ == text
}

/// The key that an error names, for the errors that name one.
pub open spec fn err_key(e: ScstError) -> Seq<char> {
    match e {
        ScstError::NoHandler(k) => k@,
        ScstError::NoDevice(k) => k@,
        ScstError::DeviceExists(k) => k@,
        ScstError::DeviceAddFail { name, e } => name@,
        ScstError::NoTarget(k) => k@,
        ScstError::TargetExists(k) => k@,
        ScstError::TargetNoLun(k) => k@,
        ScstError::TargetLunExists(k) => k@,
        ScstError::TargetAddLunFail(k) => k@,
        ScstError::TargetRemLunFail(k) => k@,
        ScstError::LunSetAttrFail(k) => k@,
        ScstError::NoGroup(k) => k@,
        ScstError::GroupExists(k) => k@,
        ScstError::GroupNoLun(k) => k@,
        ScstError::GroupLunExists(k) => k@,
        ScstError::GroupAddLunFail(k) => k@,
        ScstError::GroupRemLunFail(k) => k@,
        ScstError::GroupNoIni(k) => k@,
        ScstError::GroupIniExists(k) => k@,
        ScstError::GroupAddIniFail(k) => k@,
        ScstError::GroupRemIniFail(k) => k@,
        ScstError::GroupMoveIniFail(k) => k@,
        _ => Seq::empty(),
    }
}

/// Whether `r` failed with an error of the kind `pred` and key `key`.
pub open spec fn fails_with(
    r: Result<ControlWrite, ScstError>,
    pred: spec_fn(ScstError) -> bool,
    key: Seq<char>,
) -> bool {
    r is Err && pred(r->Err_0) && err_key(r->Err_0) == key
}

/// Whether the write in `r` reports an error of the kind `pred` and key `key`
/// when it fails.
pub open spec fn fails_as(
    r: Result<ControlWrite, ScstError>,
    pred: spec_fn(ScstError) -> bool,
    key: Seq<char>,
) -> bool {
    r is Ok && r->Ok_0.on_fail is Some && pred(r->Ok_0.on_fail->0) && err_key(
        r->Ok_0.on_fail->0,
    ) == key
}

/// A command for the command file of the entity at `root`.
pub fn mgmt(root: &str, text: String, on_fail: Option<ScstError>) -> (r: ControlWrite)
    ensures
        r.path@ == mgmt_path(root@),
        r.text@ == text@,
        r.on_fail == on_fail,
{
    ControlWrite { path: join(root, "mgmt"), text, on_fail }
}

impl ControlWrite {
    /// The error to report when this write failed with `cause`.
    pub fn failure(self, cause: String) -> (r: ScstError)
        ensures
            match self.on_fail {
                Some(ScstError::DeviceAddFail { name, e }) => r == ScstError::DeviceAddFail {
                    name,
                    e: cause,
                },
                Some(e) => r == e,
                None => r == ScstError::Io(cause),
            },
    {
        match self.on_fail {
            Some(ScstError::DeviceAddFail { name, e }) => ScstError::DeviceAddFail { name, e: cause },
            Some(e) => e,
            None => ScstError::Io(cause),
        }
    }
}

/// An entity held in a collection under a key derived from it.
pub trait Keyed {
    spec fn key_spec(&self) -> Seq<char>;

    fn key(&self) -> (r: String)
        ensures
            r@ == self.key_spec(),
    ;
}

impl Keyed for String {
    open spec fn key_spec(&self) -> Seq<char> {
        self@
    }

    fn key(&self) -> (r: String) {
        self.clone()
    }
}

pub open spec fn keys_of<T: Keyed>(v: Seq<T>) -> Seq<Seq<char>> {
    v.map_values(|x: T| x.key_spec())
}

/// No two entries share a key.
pub open spec fn unique_keys<T: Keyed>(v: Seq<T>) -> bool {
    forall|i: int, j: int|
        0 <= i < v.len() && 0 <= j < v.len() && i != j ==> v[i].key_spec() != v[j].key_spec()
}

pub open spec fn holds_key<T: Keyed>(v: Seq<T>, k: Seq<char>) -> bool {
    exists|i: int| 0 <= i < v.len() && v[i].key_spec() == k
}

/// Whether `i` is the first position of key `k`.
pub open spec fn first_of<T: Keyed>(v: Seq<T>, k: Seq<char>, i: int) -> bool {
    0 <= i < v.len() && v[i].key_spec() == k && forall|j: int| 0 <= j < i ==> v[j].key_spec() != k
}

/// The first position of key `k`, where there is one.
pub open spec fn key_index<T: Keyed>(v: Seq<T>, k: Seq<char>) -> int {
    choose|i: int| first_of(v, k, i)
}

/// The collection after storing `x`: it replaces the entry of its key, or
/// comes last when there is none.
pub open spec fn upsert_spec<T: Keyed>(v: Seq<T>, x: T) -> Seq<T> {
    if holds_key(v, x.key_spec()) {
        v.update(key_index(v, x.key_spec()), x)
    } else {
        v.push(x)
    }
}

/// The entries that loaded, each stored under its key in turn; those that
/// failed to load are left out.
pub open spec fn gather_spec<T: Keyed>(s: Seq<Result<T, ScstError>>) -> Seq<T>
    decreases s.len(),
{
    if s.len() == 0 {
        Seq::empty()
    } else {
        let g = gather_spec(s.drop_last());
        match s.last() {
            Ok(x) => upsert_spec(g, x),
            Err(_) => g,
        }
    }
}

/// The first position of key `k` in `v`.
pub fn find_key<T: Keyed>(v: &Vec<T>, k: &str) -> (r: Option<usize>)
    ensures
        r is Some ==> first_of(v@, k@, r->0 as int) && r->0 == key_index(v@, k@),
        r is None ==> !holds_key(v@, k@),
{
    let key = String::from_str(k);
    let mut i: usize = 0;
    while i < v.len()
        invariant
            i <= v@.len(),
            key@ == k@,
            forall|j: int| 0 <= j < i ==> v@[j].key_spec() != k@,
        decreases v.len() - i,
    {
        let ki = v[i].key();
        if ki == key {
            proof {
                assert(first_of(v@, k@, i as int));
                let c = key_index(v@, k@);
                assert(first_of(v@, k@, c));
            }
            return Some(i);
        }
        i = i + 1;
    }
    None
}

/// Whether `v` holds an entry of key `k`.
pub fn contains_key<T: Keyed>(v: &Vec<T>, k: &str) -> (r: bool)
    ensures
        r == holds_key(v@, k@),
{
    find_key(v, k).is_some()
}

/// Stores `x` under its key, replacing the entry that held it.
pub fn upsert<T: Keyed>(v: &mut Vec<T>, x: T)
    ensures
        final(v)@ == upsert_spec(old(v)@, x),
        unique_keys(old(v)@) ==> unique_keys(final(v)@),
{
    let k = x.key();
    let ghost xs = x;
    match find_key(v, k.as_str()) {
        Some(i) => {
            v.set(i, x);
        },
        None => {
            v.push(x);
        },
    }
    proof {
        let o = old(v)@;
        if unique_keys(o) {
            assert forall|a: int, b: int|
                0 <= a < v@.len() && 0 <= b < v@.len() && a != b implies v@[a].key_spec()
                != v@[b].key_spec() by {
                if holds_key(o, xs.key_spec()) {
                    let c = key_index(o, xs.key_spec());
                    if a != c && b != c {
                        assert(v@[a] == o[a] && v@[b] == o[b]);
                    }
                } else {
                    if a < o.len() && b < o.len() {
                        assert(v@[a] == o[a] && v@[b] == o[b]);
                    } else if a < o.len() {
                        assert(v@[a] == o[a]);
                    } else {
                        assert(v@[b] == o[b]);
                    }
                }
            }
        }
    }
}

/// The children that loaded, keyed; a child that failed to load is skipped.
pub fn gather<T: Keyed>(items: Vec<Result<T, ScstError>>) -> (r: Vec<T>)
    ensures
        r@ == gather_spec(items@),
        unique_keys(r@),
{
    let ghost orig = items@;
    let mut items = items;
    let mut r: Vec<T> = Vec::new();
    let n = items.len();
    let mut i: usize = 0;
    while i < n
        invariant
            n == orig.len(),
            i <= n,
            items@ == orig.subrange(i as int, n as int),
            r@ == gather_spec(orig.take(i as int)),
            unique_keys(r@),
        decreases n - i,
    {
        let item = items.remove(0);
        proof {
            assert(item == orig[i as int]);
            assert(orig.take(i + 1).drop_last() =~= orig.take(i as int));
            assert(orig.take(i + 1).last() == orig[i as int]);
        }
        match item {
            Ok(x) => {
                upsert(&mut r, x);
            },
            Err(_) => {},
        }
        assert(items@ =~= orig.subrange(i + 1, n as int));
        i = i + 1;
    }
    assert(orig.take(n as int) =~= orig);
    r
}

} // verus!
