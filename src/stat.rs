use vstd::prelude::*;

use crate::error::ScstError;
use crate::text::{first_line, line_of, parse_usize, unsigned_in};

verus! {

/// Whether `text` holds a match of the regular expression `pattern`.
pub uninterp spec fn regex_matches(pattern: Seq<char>, text: Seq<char>) -> bool;

/// Relies on `regex::Regex::new` and `regex::Regex::is_match`: whether `text`
/// holds a match of `pattern`, which depends on the two strings alone. A
/// pattern that does not compile matches nothing.
#[verifier::external_body]
fn regex_is_match(pattern: &str, text: &str) -> (r: bool)
    ensures
        r == regex_matches(pattern@, text@),
{
    match regex::Regex::new(pattern) {
        Ok(re) => re.is_match(text),
        Err(_) => false,
    }
}

/// The form of the directory names that hold a session's connections: a
/// dotted quad of up to three digits each.
pub open spec fn ip_pattern() -> Seq<char> {
    "^(?:\\d{1,3}\\.){3}\\d{1,3}$"@
}

/// The value of a counter file with content `t`.
pub open spec fn count_of(t: Seq<char>) -> Option<int> {
    unsigned_in(line_of(t), usize::MAX as int)
}

/// The entries that loaded, in order; those that failed are left out.
pub open spec fn loaded<T>(s: Seq<Result<T, ScstError>>) -> Seq<T>
    decreases s.len(),
{
    if s.len() == 0 {
        Seq::empty()
    } else {
        loaded(s.drop_last()) + match s.last() {
            Ok(x) => seq![x],
            Err(_) => Seq::<T>::empty(),
        }
    }
}

fn keep_loaded<T>(items: Vec<Result<T, ScstError>>) -> (r: Vec<T>)
    ensures
        r@ == loaded(items@),
{
    let ghost orig = items@;
    let mut items = items;
    let mut r: Vec<T> = Vec::new();
    let n = items.len();
    let mut i: usize = 0;
    while i < n
        invariant
            n == orig.len(),
            i <= n,
            items@ == orig.subrange(i as int, n as int),
            r@ == loaded(orig.take(i as int)),
        decreases n - i,
    {
        let item = items.remove(0);
        proof {
            assert(item == orig[i as int]);
            assert(orig.take(i + 1).drop_last() =~= orig.take(i as int));
            assert(orig.take(i + 1).last() == orig[i as int]);
        }
        match item {
            Ok(x) => {
                r.push(x);
            },
            Err(_) => {},
        }
        assert(r@ =~= loaded(orig.take(i + 1)));
        assert(items@ =~= orig.subrange(i + 1, n as int));
        i = i + 1;
    }
    assert(orig.take(n as int) =~= orig);
    r
}

/// The command and data counters of an entity.
#[derive(Debug, PartialEq, Eq)]
pub struct IOStat {
    pub bidi_cmd_count: usize,
    pub bidi_io_count_kb: usize,
    pub bidi_unaligned_cmd_count: usize,
    pub write_cmd_count: usize,
    pub write_io_count_kb: usize,
    pub write_unaligned_cmd_count: usize,
    pub read_cmd_count: usize,
    pub read_io_count_kb: usize,
    pub read_unaligned_cmd_count: usize,
}

fn read_count(t: &str, attr: &str) -> (r: Result<usize, ScstError>)
    ensures
        count_of(t@) is Some ==> r is Ok && r->Ok_0 as int == count_of(t@)->0,
        count_of(t@) is None ==> r is Err && r->Err_0 is BadValue,
{
    let line = first_line(t);
    match parse_usize(line.as_str()) {
        Some(v) => Ok(v),
        None => Err(ScstError::BadValue(String::from_str(attr))),
    }
}

/// The counters of an entity, from the contents of its nine counter files.
pub fn read_stat(
    bidi_cmd_count: &str,
    bidi_io_count_kb: &str,
    bidi_unaligned_cmd_count: &str,
    write_cmd_count: &str,
    write_io_count_kb: &str,
    write_unaligned_cmd_count: &str,
    read_cmd_count: &str,
    read_io_count_kb: &str,
    read_unaligned_cmd_count: &str,
) -> (r: Result<IOStat, ScstError>)
    ensures
        r is Ok <==> (count_of(bidi_cmd_count@) is Some && count_of(bidi_io_count_kb@) is Some
            && count_of(bidi_unaligned_cmd_count@) is Some && count_of(write_cmd_count@) is Some
            && count_of(write_io_count_kb@) is Some && count_of(write_unaligned_cmd_count@) is Some
            && count_of(read_cmd_count@) is Some && count_of(read_io_count_kb@) is Some && count_of(
            read_unaligned_cmd_count@,
        ) is Some),
        r is Err ==> r->Err_0 is BadValue,
        r is Ok ==> ({
            let s = r->Ok_0;
            &&& s.bidi_cmd_count as int == count_of(bidi_cmd_count@)->0
            &&& s.bidi_io_count_kb as int == count_of(bidi_io_count_kb@)->0
            &&& s.bidi_unaligned_cmd_count as int == count_of(bidi_unaligned_cmd_count@)->0
            &&& s.write_cmd_count as int == count_of(write_cmd_count@)->0
            &&& s.write_io_count_kb as int == count_of(write_io_count_kb@)->0
            &&& s.write_unaligned_cmd_count as int == count_of(write_unaligned_cmd_count@)->0
            &&& s.read_cmd_count as int == count_of(read_cmd_count@)->0
            &&& s.read_io_count_kb as int == count_of(read_io_count_kb@)->0
            &&& s.read_unaligned_cmd_count as int == count_of(read_unaligned_cmd_count@)->0
        }),
{
    Ok(
        IOStat {
            bidi_cmd_count: read_count(bidi_cmd_count, "bidi_cmd_count")?,
            bidi_io_count_kb: read_count(bidi_io_count_kb, "bidi_io_count_kb")?,
            bidi_unaligned_cmd_count: read_count(
                bidi_unaligned_cmd_count,
                "bidi_unaligned_cmd_count",
            )?,
            write_cmd_count: read_count(write_cmd_count, "write_cmd_count")?,
            write_io_count_kb: read_count(write_io_count_kb, "write_io_count_kb")?,
            write_unaligned_cmd_count: read_count(
                write_unaligned_cmd_count,
                "write_unaligned_cmd_count",
            )?,
            read_cmd_count: read_count(read_cmd_count, "read_cmd_count")?,
            read_io_count_kb: read_count(read_io_count_kb, "read_io_count_kb")?,
            read_unaligned_cmd_count: read_count(
                read_unaligned_cmd_count,
                "read_unaligned_cmd_count",
            )?,
        },
    )
}

/// One network connection of a session.
#[derive(Debug, PartialEq, Eq)]
pub struct SessionIP {
    pub root: String,
    pub cid: String,
    pub ip: String,
    pub state: String,
    pub target_ip: String,
}

impl SessionIP {
    pub fn cid(&self) -> (r: &str)
        ensures
            r@ == self.cid@,
    {
        self.cid.as_str()
    }

    pub fn ip(&self) -> (r: &str)
        ensures
            r@ == self.ip@,
    {
        self.ip.as_str()
    }

    pub fn state(&self) -> (r: &str)
        ensures
            r@ == self.state@,
    {
        self.state.as_str()
    }

    pub fn target_ip(&self) -> (r: &str)
        ensures
            r@ == self.target_ip@,
    {
        self.target_ip.as_str()
    }

    /// The connection of the directory `root`, from the contents of its
    /// `cid`, `ip`, `state` and `target_ip` files.
    pub fn load(root: &str, cid: &str, ip: &str, state: &str, target_ip: &str) -> (r: SessionIP)
        ensures
            r.root@ == root@,
            r.cid@ == line_of(cid@),
            r.ip@ == line_of(ip@),
            r.state@ == line_of(state@),
            r.target_ip@ == line_of(target_ip@),
    {
        SessionIP {
            root: String::from_str(root),
            cid: first_line(cid),
            ip: first_line(ip),
            state: first_line(state),
            target_ip: first_line(target_ip),
        }
    }
}

/// A live session of an initiator with a target.
#[derive(Debug, PartialEq, Eq)]
pub struct Session {
    pub root: String,
    pub sid: String,
    pub thread_pid: String,
    pub initiator_name: String,
    pub ips: Vec<SessionIP>,
}

impl Session {
    pub fn sid(&self) -> (r: &str)
        ensures
            r@ == self.sid@,
    {
        self.sid.as_str()
    }

    pub fn thread_pid(&self) -> (r: &str)
        ensures
            r@ == self.thread_pid@,
    {
        self.thread_pid.as_str()
    }

    pub fn initiator_name(&self) -> (r: &str)
        ensures
            r@ == self.initiator_name@,
    {
        self.initiator_name.as_str()
    }

    pub fn ips(&self) -> (r: &Vec<SessionIP>)
        ensures
            r@ == self.ips@,
    {
        &self.ips
    }

    /// Whether an entry of a session's directory holds a connection: a
    /// directory named by an IPv4 address.
    pub fn is_ip_entry(name: &str, is_dir: bool) -> (r: bool)
        ensures
            r == (is_dir && regex_matches(ip_pattern(), name@)),
    {
        is_dir && regex_is_match("^(?:\\d{1,3}\\.){3}\\d{1,3}$", name)
    }

    /// The session of the directory `root`, from the contents of its `sid`,
    /// `thread_pid` and `initiator_name` files and its connections; those
    /// that failed to load are left out.
    pub fn load(
        root: &str,
        sid: &str,
        thread_pid: &str,
        initiator_name: &str,
        ips: Vec<Result<SessionIP, ScstError>>,
    ) -> (r: Session)
        ensures
            r.root@ == root@,
            r.sid@ == line_of(sid@),
            r.thread_pid@ == line_of(thread_pid@),
            r.initiator_name@ == line_of(initiator_name@),
            r.ips@ == loaded(ips@),
    {
        Session {
            root: String::from_str(root),
            sid: first_line(sid),
            thread_pid: first_line(thread_pid),
            initiator_name: first_line(initiator_name),
            ips: keep_loaded(ips),
        }
    }
}

} // verus!
