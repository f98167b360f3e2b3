use vstd::prelude::*;

use crate::error::ScstError;
use crate::mgmt::{
    contains_key, enabled_path, fails_as, fails_with, find_key, gather, gather_spec, holds_key,
    is_write, key_index, mgmt, mgmt_path, unique_keys, ControlWrite, Keyed,
};
use crate::options::{
    check_pack_ok, cmd_with_options, contains_str, outside_keys, pack_spec, strs, with_options,
    Options,
};
use crate::device::{flag_of, read_flag};
use crate::text::{
    base_name, base_of, dec_seq, dec_string, first_line, join, join_spec, line_of, parse_u64,
    unsigned_in,
};

verus! {

/// The key under which the LUN of number `id` is held.
pub open spec fn lun_key(id: u64) -> Seq<char> {
    "lun"@ + dec_seq(id as nat)
}

/// Whether a name starts with `iqn`.
pub open spec fn starts_iqn(s: Seq<char>) -> bool {
    s.len() >= 3 && s[0] == 'i' && s[1] == 'q' && s[2] == 'n'
}

pub fn is_iqn(s: &str) -> (r: bool)
    ensures
        r == starts_iqn(s@),
{
    s.unicode_len() >= 3 && s.get_char(0) == 'i' && s.get_char(1) == 'q' && s.get_char(2) == 'n'
}

/// The number of an unsigned attribute file with content `t`.
pub open spec fn number_of(t: Seq<char>) -> Option<int> {
    unsigned_in(line_of(t), u64::MAX as int)
}

fn read_number(t: &str, attr: &str) -> (r: Result<u64, ScstError>)
    ensures
        number_of(t@) is Some ==> r is Ok && r->Ok_0 as int == number_of(t@)->0,
        number_of(t@) is None ==> r is Err && r->Err_0 is BadValue,
{
    let line = first_line(t);
    match parse_u64(line.as_str()) {
        Some(v) => Ok(v),
        None => Err(ScstError::BadValue(String::from_str(attr))),
    }
}

/// The LUN command `verb device id`.
pub open spec fn lun_cmd(verb: Seq<char>, device: Seq<char>, id: u64) -> Seq<char> {
    verb + seq![' '] + device + seq![' '] + dec_seq(id as nat)
}

fn lun_cmd_text(verb: &str, device: &str, id: u64) -> (r: String)
    ensures
        r@ == lun_cmd(verb@, device@, id),
{
    proof {
        reveal_strlit(" ");
    }
    let mut r = String::from_str(verb);
    r.append(" ");
    r.append(device);
    r.append(" ");
    let n = dec_string(id);
    r.append(n.as_str());
    r
}

/// A command with one argument: `verb arg`.
pub open spec fn cmd1(verb: Seq<char>, arg: Seq<char>) -> Seq<char> {
    verb + seq![' '] + arg
}

fn cmd1_text(verb: &str, arg: &str) -> (r: String)
    ensures
        r@ == cmd1(verb@, arg@),
{
    proof {
        reveal_strlit(" ");
    }
    let mut r = String::from_str(verb);
    r.append(" ");
    r.append(arg);
    r
}

/// The options that adding a LUN accepts.
pub open spec fn lun_params() -> Seq<Seq<char>> {
    seq!["read_only"@]
}

fn lun_param_list() -> (r: Vec<String>)
    ensures
        strs(r@) == lun_params(),
{
    let r = vec![String::from_str("read_only")];
    assert(strs(r@) =~= lun_params());
    r
}

/// The attributes of a target that can be added or removed, and the options
/// that adding a target accepts.
pub open spec fn target_params() -> Seq<Seq<char>> {
    seq!["IncomingUser"@, "OutgoingUser"@, "allowed_portal"@]
}

fn target_param_list() -> (r: Vec<String>)
    ensures
        strs(r@) == target_params(),
{
    let r = vec![
        String::from_str("IncomingUser"),
        String::from_str("OutgoingUser"),
        String::from_str("allowed_portal"),
    ];
    assert(strs(r@) =~= target_params());
    r
}

/// The attributes of a driver that can be added or removed.
pub open spec fn driver_params() -> Seq<Seq<char>> {
    seq!["IncomingUser"@, "OutgoingUser"@]
}

fn driver_param_list() -> (r: Vec<String>)
    ensures
        strs(r@) == driver_params(),
{
    let r = vec![String::from_str("IncomingUser"), String::from_str("OutgoingUser")];
    assert(strs(r@) =~= driver_params());
    r
}

/// A logical unit: a device at a numbered slot.
#[derive(Debug, PartialEq, Eq)]
pub struct Lun {
    pub root: String,
    pub id: u64,
    pub device: String,
    pub read_only: i8,
}

impl Keyed for Lun {
    open spec fn key_spec(&self) -> Seq<char> {
        lun_key(self.id)
    }

    fn key(&self) -> (r: String) {
        self.name()
    }
}

impl Lun {
    /// The key of the LUN: `lun` followed by its number.
    pub fn name(&self) -> (r: String)
        ensures
            r@ == lun_key(self.id),
    {
        let mut r = String::from_str("lun");
        let n = dec_string(self.id);
        r.append(n.as_str());
        r
    }

    pub fn id(&self) -> (r: u64)
        ensures
            r == self.id,
    {
        self.id
    }

    pub fn device(&self) -> (r: &str)
        ensures
            r@ == self.device@,
    {
        self.device.as_str()
    }

    pub fn read_only(&self) -> (r: bool)
        ensures
            r == (self.read_only == 1),
    {
        self.read_only == 1
    }

    /// Builds the LUN of the directory `root`, whose name is its number, from
    /// the target of its `device` link and the content of its `read_only` file.
    pub fn load(root: &str, device_link: &str, read_only: &str) -> (r: Result<Lun, ScstError>)
        ensures
            r is Ok <==> unsigned_in(base_of(root@), u64::MAX as int) is Some && flag_of(
                read_only@,
            ) is Some,
            r is Err ==> r->Err_0 is BadValue,
            r is Ok ==> ({
                let l = r->Ok_0;
                &&& l.root@ == root@
                &&& l.id as int == unsigned_in(base_of(root@), u64::MAX as int)->0
                &&& l.device@ == base_of(device_link@)
                &&& l.read_only as int == flag_of(read_only@)->0
            }),
    {
        let base = base_name(root);
        let id = match parse_u64(base.as_str()) {
            Some(v) => v,
            None => {
                return Err(ScstError::BadValue(String::from_str("id")));
            },
        };
        let read_only = read_flag(read_only, "read_only")?;
        Ok(Lun { root: String::from_str(root), id, device: base_name(device_link), read_only })
    }
}

/// The names of the entries that are initiators: files whose name starts with `iqn`.
pub open spec fn initiator_names(entries: Seq<(String, bool)>) -> Seq<Seq<char>>
    decreases entries.len(),
{
    if entries.len() == 0 {
        Seq::empty()
    } else {
        let e = entries.last();
        initiator_names(entries.drop_last()) + if e.1 && starts_iqn(e.0@) {
            seq![e.0@]
        } else {
            Seq::<Seq<char>>::empty()
        }
    }
}

/// An initiator group: the initiators it admits and the LUNs they see.
#[derive(Debug, PartialEq, Eq)]
pub struct IniGroup {
    pub root: String,
    pub name: String,
    pub luns: Vec<Lun>,
    pub initiators: Vec<String>,
}

impl Keyed for IniGroup {
    open spec fn key_spec(&self) -> Seq<char> {
        self.name@
    }

    fn key(&self) -> (r: String) {
        self.name.clone()
    }
}

impl IniGroup {
    /// Well-formed: no two LUNs share a number.
    pub open spec fn wf(&self) -> bool {
        unique_keys(self.luns@)
    }

    pub fn name(&self) -> (r: &str)
        ensures
            r@ == self.name@,
    {
        self.name.as_str()
    }

    pub fn luns(&self) -> (r: &Vec<Lun>)
        ensures
            r@ == self.luns@,
    {
        &self.luns
    }

    /// The LUN held under key `lun_id` (see `Lun::name`).
    pub fn get_lun(&self, lun_id: &str) -> (r: Result<&Lun, ScstError>)
        ensures
            holds_key(self.luns@, lun_id@) ==> r is Ok && *r->Ok_0 == self.luns@[key_index(
                self.luns@,
                lun_id@,
            )],
            !holds_key(self.luns@, lun_id@) ==> r is Err && r->Err_0 is GroupNoLun
                && r->Err_0->GroupNoLun_0@ == lun_id@,
    {
        match find_key(&self.luns, lun_id) {
            Some(i) => Ok(&self.luns[i]),
            None => Err(ScstError::GroupNoLun(String::from_str(lun_id))),
        }
    }

    /// The LUN held under key `key`, to change in place.
    pub fn get_lun_mut(&mut self, key: &str) -> (r: Result<&mut Lun, ScstError>)
        ensures
            holds_key(old(self).luns@, key@) ==> r is Ok && *r->Ok_0 == old(self).luns@[key_index(
                old(self).luns@,
                key@,
            )] && final(self).luns@ == old(self).luns@.update(
                key_index(old(self).luns@, key@),
                *final(r->Ok_0),
            ),
            !holds_key(old(self).luns@, key@) ==> r is Err && r->Err_0 is GroupNoLun
                && r->Err_0->GroupNoLun_0@ == key@ && *final(self) == *old(self),
            final(self).root == old(self).root && final(self).name == old(self).name && final(self).initiators == old(self).initiators,
    {
        match find_key(&self.luns, key) {
            Some(i) => Ok(&mut self.luns[i]),
            None => Err(ScstError::GroupNoLun(String::from_str(key))),
        }
    }

    pub fn initiators(&self) -> (r: &Vec<String>)
        ensures
            r@ == self.initiators@,
    {
        &self.initiators
    }

    fn has_lun(&self, lun_id: u64) -> (r: bool)
        ensures
            r == holds_key(self.luns@, lun_key(lun_id)),
    {
        let mut key = String::from_str("lun");
        let n = dec_string(lun_id);
        key.append(n.as_str());
        contains_key(&self.luns, key.as_str())
    }

    /// The write that binds `device` to LUN `lun_id` of the group, which must be free.
    pub fn add_lun(&self, device: &str, lun_id: u64, options: &Options) -> (r: Result<
        ControlWrite,
        ScstError,
    >)
        ensures
            holds_key(self.luns@, lun_key(lun_id)) ==> fails_with(
                r,
                |e: ScstError| e is GroupLunExists,
                dec_seq(lun_id as nat),
            ),
            !holds_key(self.luns@, lun_key(lun_id)) && !check_pack_ok(options@, lun_params())
                ==> r is Err && r->Err_0 is InvalidParams && strs(r->Err_0->InvalidParams_0@)
                == outside_keys(options@, lun_params()),
            !holds_key(self.luns@, lun_key(lun_id)) && check_pack_ok(options@, lun_params())
                ==> is_write(
                r,
                mgmt_path(join_spec(self.root@, "luns"@)),
                with_options(lun_cmd("add"@, device@, lun_id), pack_spec(options@)),
            ) && fails_as(r, |e: ScstError| e is GroupAddLunFail, dec_seq(lun_id as nat)),
    {
        if self.has_lun(lun_id) {
            return Err(ScstError::GroupLunExists(dec_string(lun_id)));
        }
        let cmd = lun_cmd_text("add", device, lun_id);
        let params = lun_param_list();
        let text = cmd_with_options(cmd, &params, options)?;
        let root = join(self.root.as_str(), "luns");
        Ok(mgmt(root.as_str(), text, Some(ScstError::GroupAddLunFail(dec_string(lun_id)))))
    }

    /// The write that binds `device` in place of the one at LUN `lun_id`,
    /// which must be taken.
    pub fn set_lun(&self, device: &str, lun_id: u64, options: &Options) -> (r: Result<
        ControlWrite,
        ScstError,
    >)
        ensures
            !holds_key(self.luns@, lun_key(lun_id)) ==> fails_with(
                r,
                |e: ScstError| e is GroupNoLun,
                dec_seq(lun_id as nat),
            ),
            holds_key(self.luns@, lun_key(lun_id)) && !check_pack_ok(options@, lun_params())
                ==> r is Err && r->Err_0 is InvalidParams && strs(r->Err_0->InvalidParams_0@)
                == outside_keys(options@, lun_params()),
            holds_key(self.luns@, lun_key(lun_id)) && check_pack_ok(options@, lun_params())
                ==> is_write(
                r,
                mgmt_path(join_spec(self.root@, "luns"@)),
                with_options(lun_cmd("replace"@, device@, lun_id), pack_spec(options@)),
            ) && fails_as(r, |e: ScstError| e is LunSetAttrFail, dec_seq(lun_id as nat)),
    {
        if !self.has_lun(lun_id) {
            return Err(ScstError::GroupNoLun(dec_string(lun_id)));
        }
        let cmd = lun_cmd_text("replace", device, lun_id);
        let params = lun_param_list();
        let text = cmd_with_options(cmd, &params, options)?;
        let root = join(self.root.as_str(), "luns");
        Ok(mgmt(root.as_str(), text, Some(ScstError::LunSetAttrFail(dec_string(lun_id)))))
    }

    /// The write that frees LUN `lun_id`, which must be taken.
    pub fn del_lun(&self, lun_id: u64) -> (r: Result<ControlWrite, ScstError>)
        ensures
            !holds_key(self.luns@, lun_key(lun_id)) ==> fails_with(
                r,
                |e: ScstError| e is GroupNoLun,
                dec_seq(lun_id as nat),
            ),
            holds_key(self.luns@, lun_key(lun_id)) ==> is_write(
                r,
                mgmt_path(join_spec(self.root@, "luns"@)),
                cmd1("del"@, dec_seq(lun_id as nat)),
            ) && fails_as(r, |e: ScstError| e is GroupRemLunFail, dec_seq(lun_id as nat)),
    {
        if !self.has_lun(lun_id) {
            return Err(ScstError::GroupNoLun(dec_string(lun_id)));
        }
        let id = dec_string(lun_id);
        let text = cmd1_text("del", id.as_str());
        let root = join(self.root.as_str(), "luns");
        Ok(mgmt(root.as_str(), text, Some(ScstError::GroupRemLunFail(id))))
    }

    /// The write that admits `initiator` to the group; it must not be there yet.
    pub fn add_initiator(&self, initiator: &str) -> (r: Result<ControlWrite, ScstError>)
        ensures
            strs(self.initiators@).contains(initiator@) ==> fails_with(
                r,
                |e: ScstError| e is GroupIniExists,
                initiator@,
            ),
            !strs(self.initiators@).contains(initiator@) ==> is_write(
                r,
                mgmt_path(join_spec(self.root@, "initiators"@)),
                cmd1("add"@, initiator@),
            ) && fails_as(r, |e: ScstError| e is GroupAddIniFail, initiator@),
    {
        if contains_str(&self.initiators, initiator) {
            return Err(ScstError::GroupIniExists(String::from_str(initiator)));
        }
        let text = cmd1_text("add", initiator);
        let root = join(self.root.as_str(), "initiators");
        Ok(
            mgmt(
                root.as_str(),
                text,
                Some(ScstError::GroupAddIniFail(String::from_str(initiator))),
            ),
        )
    }

    /// The write that removes `initiator` from the group, where it must be.
    pub fn del_initiator(&self, initiator: &str) -> (r: Result<ControlWrite, ScstError>)
        ensures
            !strs(self.initiators@).contains(initiator@) ==> fails_with(
                r,
                |e: ScstError| e is GroupNoIni,
                initiator@,
            ),
            strs(self.initiators@).contains(initiator@) ==> is_write(
                r,
                mgmt_path(join_spec(self.root@, "initiators"@)),
                cmd1("del"@, initiator@),
            ) && fails_as(r, |e: ScstError| e is GroupRemIniFail, initiator@),
    {
        if !contains_str(&self.initiators, initiator) {
            return Err(ScstError::GroupNoIni(String::from_str(initiator)));
        }
        let text = cmd1_text("del", initiator);
        let root = join(self.root.as_str(), "initiators");
        Ok(
            mgmt(
                root.as_str(),
                text,
                Some(ScstError::GroupRemIniFail(String::from_str(initiator))),
            ),
        )
    }

    /// The write that moves `initiator`, which must be in the group, to the
    /// group `dest_group`.
    pub fn move_initiator(&self, initiator: &str, dest_group: &str) -> (r: Result<
        ControlWrite,
        ScstError,
    >)
        ensures
            !strs(self.initiators@).contains(initiator@) ==> fails_with(
                r,
                |e: ScstError| e is GroupNoIni,
                initiator@,
            ),
            strs(self.initiators@).contains(initiator@) ==> is_write(
                r,
                mgmt_path(join_spec(self.root@, "initiators"@)),
                cmd1(cmd1("move"@, initiator@), dest_group@),
            ) && fails_as(r, |e: ScstError| e is GroupMoveIniFail, initiator@),
    {
        if !contains_str(&self.initiators, initiator) {
            return Err(ScstError::GroupNoIni(String::from_str(initiator)));
        }
        let first = cmd1_text("move", initiator);
        let text = cmd1_text(first.as_str(), dest_group);
        let root = join(self.root.as_str(), "initiators");
        Ok(
            mgmt(
                root.as_str(),
                text,
                Some(ScstError::GroupMoveIniFail(String::from_str(initiator))),
            ),
        )
    }

    /// The write that removes every initiator from the group.
    pub fn clear_initiators(&self) -> (r: ControlWrite)
        ensures
            r.path@ == mgmt_path(join_spec(self.root@, "initiators"@)),
            r.text@ == "clear"@,
            r.on_fail == Some(ScstError::GroupClearIniFail),
    {
        let root = join(self.root.as_str(), "initiators");
        mgmt(root.as_str(), String::from_str("clear"), Some(ScstError::GroupClearIniFail))
    }

    /// Builds the group of the directory `root` from the LUNs of its `luns`
    /// directory and the entries of its `initiators` directory, each a name
    /// and whether it is a file. LUNs that failed to load are left out.
    pub fn load(root: &str, luns: Vec<Result<Lun, ScstError>>, entries: &Vec<(String, bool)>) -> (r:
        IniGroup)
        ensures
            r.root@ == root@,
            r.name@ == base_of(root@),
            r.luns@ == gather_spec(luns@),
            strs(r.initiators@) == initiator_names(entries@),
            r.wf(),
    {
        let mut initiators: Vec<String> = Vec::new();
        let mut i: usize = 0;
        while i < entries.len()
            invariant
                i <= entries@.len(),
                strs(initiators@) == initiator_names(entries@.take(i as int)),
            decreases entries.len() - i,
        {
            assert(entries@.take(i + 1).drop_last() =~= entries@.take(i as int));
            assert(entries@.take(i + 1).last() == entries@[i as int]);
            if entries[i].1 && is_iqn(entries[i].0.as_str()) {
                initiators.push(entries[i].0.clone());
            }
            assert(strs(initiators@) =~= initiator_names(entries@.take(i + 1)));
            i = i + 1;
        }
        assert(entries@.take(entries@.len() as int) =~= entries@);
        IniGroup {
            root: String::from_str(root),
            name: base_name(root),
            luns: gather(luns),
            initiators,
        }
    }
}

/// An endpoint of a driver: its LUNs and its initiator groups.
#[derive(Debug, PartialEq, Eq)]
pub struct Target {
    pub root: String,
    pub tid: u64,
    pub rel_tgt_id: u64,
    pub name: String,
    pub enabled: i8,
    pub luns: Vec<Lun>,
    pub ini_groups: Vec<IniGroup>,
}

impl Keyed for Target {
    open spec fn key_spec(&self) -> Seq<char> {
        self.name@
    }

    fn key(&self) -> (r: String) {
        self.name.clone()
    }
}

impl Target {
    /// Well-formed: LUN numbers and group names are unique, and each group is
    /// well-formed.
    pub open spec fn wf(&self) -> bool {
        &&& unique_keys(self.luns@)
        &&& unique_keys(self.ini_groups@)
        &&& forall|i: int| 0 <= i < self.ini_groups@.len() ==> (#[trigger] self.ini_groups@[i]).wf()
    }

    pub fn tid(&self) -> (r: u64)
        ensures
            r == self.tid,
    {
        self.tid
    }

    pub fn rel_tgt_id(&self) -> (r: u64)
        ensures
            r == self.rel_tgt_id,
    {
        self.rel_tgt_id
    }

    pub fn name(&self) -> (r: &str)
        ensures
            r@ == self.name@,
    {
        self.name.as_str()
    }

    pub fn enabled(&self) -> (r: bool)
        ensures
            r == (self.enabled == 1),
    {
        self.enabled == 1
    }

    /// The write that enables the target.
    pub fn enable(&self) -> (r: ControlWrite)
        ensures
            r.path@ == enabled_path(self.root@),
            r.text@ == "1"@,
            r.on_fail is None,
    {
        ControlWrite { path: join(self.root.as_str(), "enabled"), text: String::from_str("1"), on_fail: None }
    }

    /// The write that disables the target.
    pub fn disable(&self) -> (r: ControlWrite)
        ensures
            r.path@ == enabled_path(self.root@),
            r.text@ == "0"@,
            r.on_fail is None,
    {
        ControlWrite { path: join(self.root.as_str(), "enabled"), text: String::from_str("0"), on_fail: None }
    }

    pub fn luns(&self) -> (r: &Vec<Lun>)
        ensures
            r@ == self.luns@,
    {
        &self.luns
    }

    /// The LUN held under key `lun_id` (see `Lun::name`).
    pub fn get_lun(&self, lun_id: &str) -> (r: Result<&Lun, ScstError>)
        ensures
            holds_key(self.luns@, lun_id@) ==> r is Ok && *r->Ok_0 == self.luns@[key_index(
                self.luns@,
                lun_id@,
            )],
            !holds_key(self.luns@, lun_id@) ==> r is Err && r->Err_0 is TargetNoLun
                && r->Err_0->TargetNoLun_0@ == lun_id@,
    {
        match find_key(&self.luns, lun_id) {
            Some(i) => Ok(&self.luns[i]),
            None => Err(ScstError::TargetNoLun(String::from_str(lun_id))),
        }
    }

    /// The LUN held under key `key`, to change in place.
    pub fn get_lun_mut(&mut self, key: &str) -> (r: Result<&mut Lun, ScstError>)
        ensures
            holds_key(old(self).luns@, key@) ==> r is Ok && *r->Ok_0 == old(self).luns@[key_index(
                old(self).luns@,
                key@,
            )] && final(self).luns@ == old(self).luns@.update(
                key_index(old(self).luns@, key@),
                *final(r->Ok_0),
            ),
            !holds_key(old(self).luns@, key@) ==> r is Err && r->Err_0 is TargetNoLun
                && r->Err_0->TargetNoLun_0@ == key@ && *final(self) == *old(self),
            final(self).root == old(self).root && final(self).tid == old(self).tid && final(self).rel_tgt_id == old(self).rel_tgt_id && final(self).name == old(self).name && final(self).enabled == old(self).enabled && final(self).ini_groups == old(self).ini_groups,
    {
        match find_key(&self.luns, key) {
            Some(i) => Ok(&mut self.luns[i]),
            None => Err(ScstError::TargetNoLun(String::from_str(key))),
        }
    }

    fn has_lun(&self, lun_id: u64) -> (r: bool)
        ensures
            r == holds_key(self.luns@, lun_key(lun_id)),
    {
        let mut key = String::from_str("lun");
        let n = dec_string(lun_id);
        key.append(n.as_str());
        contains_key(&self.luns, key.as_str())
    }

    /// The write that binds `device` to LUN `lun_id` of the target, which must be free.
    pub fn add_lun(&self, device: &str, lun_id: u64, options: &Options) -> (r: Result<
        ControlWrite,
        ScstError,
    >)
        ensures
            holds_key(self.luns@, lun_key(lun_id)) ==> fails_with(
                r,
                |e: ScstError| e is TargetLunExists,
                dec_seq(lun_id as nat),
            ),
            !holds_key(self.luns@, lun_key(lun_id)) && !check_pack_ok(options@, lun_params())
                ==> r is Err && r->Err_0 is InvalidParams && strs(r->Err_0->InvalidParams_0@)
                == outside_keys(options@, lun_params()),
            !holds_key(self.luns@, lun_key(lun_id)) && check_pack_ok(options@, lun_params())
                ==> is_write(
                r,
                mgmt_path(join_spec(self.root@, "luns"@)),
                with_options(lun_cmd("add"@, device@, lun_id), pack_spec(options@)),
            ) && fails_as(r, |e: ScstError| e is TargetAddLunFail, dec_seq(lun_id as nat)),
    {
        if self.has_lun(lun_id) {
            return Err(ScstError::TargetLunExists(dec_string(lun_id)));
        }
        let cmd = lun_cmd_text("add", device, lun_id);
        let params = lun_param_list();
        let text = cmd_with_options(cmd, &params, options)?;
        let root = join(self.root.as_str(), "luns");
        Ok(mgmt(root.as_str(), text, Some(ScstError::TargetAddLunFail(dec_string(lun_id)))))
    }

    /// The write that binds `device` in place of the one at LUN `lun_id`,
    /// which must be taken.
    pub fn set_lun(&self, device: &str, lun_id: u64, options: &Options) -> (r: Result<
        ControlWrite,
        ScstError,
    >)
        ensures
            !holds_key(self.luns@, lun_key(lun_id)) ==> fails_with(
                r,
                |e: ScstError| e is TargetNoLun,
                dec_seq(lun_id as nat),
            ),
            holds_key(self.luns@, lun_key(lun_id)) && !check_pack_ok(options@, lun_params())
                ==> r is Err && r->Err_0 is InvalidParams && strs(r->Err_0->InvalidParams_0@)
                == outside_keys(options@, lun_params()),
            holds_key(self.luns@, lun_key(lun_id)) && check_pack_ok(options@, lun_params())
                ==> is_write(
                r,
                mgmt_path(join_spec(self.root@, "luns"@)),
                with_options(lun_cmd("replace"@, device@, lun_id), pack_spec(options@)),
            ) && fails_as(r, |e: ScstError| e is LunSetAttrFail, dec_seq(lun_id as nat)),
    {
        if !self.has_lun(lun_id) {
            return Err(ScstError::TargetNoLun(dec_string(lun_id)));
        }
        let cmd = lun_cmd_text("replace", device, lun_id);
        let params = lun_param_list();
        let text = cmd_with_options(cmd, &params, options)?;
        let root = join(self.root.as_str(), "luns");
        Ok(mgmt(root.as_str(), text, Some(ScstError::LunSetAttrFail(dec_string(lun_id)))))
    }

    /// The write that frees LUN `lun_id`, which must be taken.
    pub fn del_lun(&self, lun_id: u64) -> (r: Result<ControlWrite, ScstError>)
        ensures
            !holds_key(self.luns@, lun_key(lun_id)) ==> fails_with(
                r,
                |e: ScstError| e is TargetNoLun,
                dec_seq(lun_id as nat),
            ),
            holds_key(self.luns@, lun_key(lun_id)) ==> is_write(
                r,
                mgmt_path(join_spec(self.root@, "luns"@)),
                cmd1("del"@, dec_seq(lun_id as nat)),
            ) && fails_as(r, |e: ScstError| e is TargetRemLunFail, dec_seq(lun_id as nat)),
    {
        if !self.has_lun(lun_id) {
            return Err(ScstError::TargetNoLun(dec_string(lun_id)));
        }
        let id = dec_string(lun_id);
        let text = cmd1_text("del", id.as_str());
        let root = join(self.root.as_str(), "luns");
        Ok(mgmt(root.as_str(), text, Some(ScstError::TargetRemLunFail(id))))
    }

    pub fn ini_groups(&self) -> (r: &Vec<IniGroup>)
        ensures
            r@ == self.ini_groups@,
    {
        &self.ini_groups
    }

    /// The initiator group of name `name`.
    pub fn get_ini_group(&self, name: &str) -> (r: Result<&IniGroup, ScstError>)
        ensures
            holds_key(self.ini_groups@, name@) ==> r is Ok && *r->Ok_0
                == self.ini_groups@[key_index(self.ini_groups@, name@)],
            !holds_key(self.ini_groups@, name@) ==> r is Err && r->Err_0 is NoGroup
                && r->Err_0->NoGroup_0@ == name@,
    {
        match find_key(&self.ini_groups, name) {
            Some(i) => Ok(&self.ini_groups[i]),
            None => Err(ScstError::NoGroup(String::from_str(name))),
        }
    }

    /// The initiator group of name `key`, to change in place.
    pub fn get_ini_group_mut(&mut self, key: &str) -> (r: Result<&mut IniGroup, ScstError>)
        ensures
            holds_key(old(self).ini_groups@, key@) ==> r is Ok && *r->Ok_0 == old(self).ini_groups@[key_index(
                old(self).ini_groups@,
                key@,
            )] && final(self).ini_groups@ == old(self).ini_groups@.update(
                key_index(old(self).ini_groups@, key@),
                *final(r->Ok_0),
            ),
            !holds_key(old(self).ini_groups@, key@) ==> r is Err && r->Err_0 is NoGroup
                && r->Err_0->NoGroup_0@ == key@ && *final(self) == *old(self),
            final(self).root == old(self).root && final(self).tid == old(self).tid && final(self).rel_tgt_id == old(self).rel_tgt_id && final(self).name == old(self).name && final(self).enabled == old(self).enabled && final(self).luns == old(self).luns,
    {
        match find_key(&self.ini_groups, key) {
            Some(i) => Ok(&mut self.ini_groups[i]),
            None => Err(ScstError::NoGroup(String::from_str(key))),
        }
    }

    /// The write that creates the initiator group `name`, which must not exist yet.
    pub fn create_ini_group(&self, name: &str) -> (r: Result<ControlWrite, ScstError>)
        ensures
            holds_key(self.ini_groups@, name@) ==> fails_with(
                r,
                |e: ScstError| e is GroupExists,
                name@,
            ),
            !holds_key(self.ini_groups@, name@) ==> is_write(
                r,
                mgmt_path(join_spec(self.root@, "ini_groups"@)),
                cmd1("create"@, name@),
            ) && r->Ok_0.on_fail is None,
    {
        if contains_key(&self.ini_groups, name) {
            return Err(ScstError::GroupExists(String::from_str(name)));
        }
        let text = cmd1_text("create", name);
        let root = join(self.root.as_str(), "ini_groups");
        Ok(mgmt(root.as_str(), text, None))
    }

    /// The write that removes the initiator group `name`, which must exist.
    pub fn del_ini_group(&self, name: &str) -> (r: Result<ControlWrite, ScstError>)
        ensures
            !holds_key(self.ini_groups@, name@) ==> fails_with(
                r,
                |e: ScstError| e is NoGroup,
                name@,
            ),
            holds_key(self.ini_groups@, name@) ==> is_write(
                r,
                mgmt_path(join_spec(self.root@, "ini_groups"@)),
                cmd1("del"@, name@),
            ) && r->Ok_0.on_fail is None,
    {
        if !contains_key(&self.ini_groups, name) {
            return Err(ScstError::NoGroup(String::from_str(name)));
        }
        let text = cmd1_text("del", name);
        let root = join(self.root.as_str(), "ini_groups");
        Ok(mgmt(root.as_str(), text, None))
    }

    /// Builds the target of the directory `root` from the contents of its
    /// `tid`, `rel_tgt_id` and `enabled` files and its LUNs and groups. A
    /// missing `tid` counts as 0 and a missing `enabled` as 1; children that
    /// failed to load are left out.
    pub fn load(
        root: &str,
        tid: Option<&str>,
        rel_tgt_id: &str,
        enabled: Option<&str>,
        luns: Vec<Result<Lun, ScstError>>,
        ini_groups: Vec<Result<IniGroup, ScstError>>,
    ) -> (r: Result<Target, ScstError>)
        ensures
            ({
                let tid_text = match tid {
                    Some(t) => t@,
                    None => "0"@,
                };
                let en_text = match enabled {
                    Some(t) => t@,
                    None => "1"@,
                };
                &&& r is Ok <==> (number_of(tid_text) is Some && number_of(rel_tgt_id@) is Some
                    && flag_of(en_text) is Some)
                &&& r is Err ==> r->Err_0 is BadValue
                &&& r is Ok ==> {
                    let t = r->Ok_0;
                    &&& t.root@ == root@
                    &&& t.name@ == base_of(root@)
                    &&& t.tid as int == number_of(tid_text)->0
                    &&& t.rel_tgt_id as int == number_of(rel_tgt_id@)->0
                    &&& t.enabled as int == flag_of(en_text)->0
                    &&& t.luns@ == gather_spec(luns@)
                    &&& t.ini_groups@ == gather_spec(ini_groups@)
                    &&& unique_keys(t.luns@)
                    &&& unique_keys(t.ini_groups@)
                }
            }),
    {
        let tid = read_number(
            match tid {
                Some(t) => t,
                None => "0",
            },
            "tid",
        )?;
        let rel_tgt_id = read_number(rel_tgt_id, "rel_tgt_id")?;
        let enabled = read_flag(
            match enabled {
                Some(t) => t,
                None => "1",
            },
            "enabled",
        )?;
        Ok(
            Target {
                root: String::from_str(root),
                tid,
                rel_tgt_id,
                name: base_name(root),
                enabled,
                luns: gather(luns),
                ini_groups: gather(ini_groups),
            },
        )
    }
}

/// Whether a directory entry of a driver holds a target: a directory whose
/// name starts with `iqn`.
pub fn is_target_entry(name: &str, is_dir: bool) -> (r: bool)
    ensures
        r == (is_dir && starts_iqn(name@)),
{
    is_dir && is_iqn(name)
}

/// A transport front end and its targets.
#[derive(Debug, PartialEq, Eq)]
pub struct Driver {
    pub root: String,
    pub name: String,
    pub enabled: i8,
    pub open_state: String,
    pub version: String,
    pub targets: Vec<Target>,
}

impl Driver {
    /// Well-formed: target names are unique and each target is well-formed.
    pub open spec fn wf(&self) -> bool {
        &&& unique_keys(self.targets@)
        &&& forall|i: int| 0 <= i < self.targets@.len() ==> (#[trigger] self.targets@[i]).wf()
    }

    pub fn name(&self) -> (r: &str)
        ensures
            r@ == self.name@,
    {
        self.name.as_str()
    }

    pub fn enabled(&self) -> (r: bool)
        ensures
            r == (self.enabled == 1),
    {
        self.enabled == 1
    }

    /// The write that enables the driver.
    pub fn enable(&self) -> (r: ControlWrite)
        ensures
            r.path@ == enabled_path(self.root@),
            r.text@ == "1"@,
            r.on_fail is None,
    {
        ControlWrite { path: join(self.root.as_str(), "enabled"), text: String::from_str("1"), on_fail: None }
    }

    /// The write that disables the driver.
    pub fn disable(&self) -> (r: ControlWrite)
        ensures
            r.path@ == enabled_path(self.root@),
            r.text@ == "0"@,
            r.on_fail is None,
    {
        ControlWrite { path: join(self.root.as_str(), "enabled"), text: String::from_str("0"), on_fail: None }
    }

    pub fn open_state(&self) -> (r: &str)
        ensures
            r@ == self.open_state@,
    {
        self.open_state.as_str()
    }

    pub fn version(&self) -> (r: &str)
        ensures
            r@ == self.version@,
    {
        self.version.as_str()
    }

    pub fn targets(&self) -> (r: &Vec<Target>)
        ensures
            r@ == self.targets@,
    {
        &self.targets
    }

    /// The target of name `name`.
    pub fn get_target(&self, name: &str) -> (r: Result<&Target, ScstError>)
        ensures
            holds_key(self.targets@, name@) ==> r is Ok && *r->Ok_0 == self.targets@[key_index(
                self.targets@,
                name@,
            )],
            !holds_key(self.targets@, name@) ==> r is Err && r->Err_0 is NoTarget
                && r->Err_0->NoTarget_0@ == name@,
    {
        match find_key(&self.targets, name) {
            Some(i) => Ok(&self.targets[i]),
            None => Err(ScstError::NoTarget(String::from_str(name))),
        }
    }

    /// The target of name `name`, to change in place.
    pub fn get_target_mut(&mut self, name: &str) -> (r: Result<&mut Target, ScstError>)
        ensures
            holds_key(old(self).targets@, name@) ==> r is Ok && *r->Ok_0 == old(self).targets@[key_index(
                old(self).targets@,
                name@,
            )] && final(self).targets@ == old(self).targets@.update(
                key_index(old(self).targets@, name@),
                *final(r->Ok_0),
            ),
            !holds_key(old(self).targets@, name@) ==> r is Err && r->Err_0 is NoTarget
                && r->Err_0->NoTarget_0@ == name@ && *final(self) == *old(self),
            final(self).root == old(self).root && final(self).name == old(self).name
                && final(self).enabled == old(self).enabled && final(self).open_state == old(
                self,
            ).open_state && final(self).version == old(self).version,
    {
        match find_key(&self.targets, name) {
            Some(i) => Ok(&mut self.targets[i]),
            None => Err(ScstError::NoTarget(String::from_str(name))),
        }
    }

    /// The write that creates target `name`, which must not exist yet, with
    /// the target options `options`.
    pub fn add_target(&self, name: &str, options: &Options) -> (r: Result<ControlWrite, ScstError>)
        ensures
            holds_key(self.targets@, name@) ==> fails_with(
                r,
                |e: ScstError| e is TargetExists,
                name@,
            ),
            !holds_key(self.targets@, name@) && !check_pack_ok(options@, target_params()) ==> r is Err
                && r->Err_0 is InvalidParams && strs(r->Err_0->InvalidParams_0@) == outside_keys(
                options@,
                target_params(),
            ),
            !holds_key(self.targets@, name@) && check_pack_ok(options@, target_params())
                ==> is_write(
                r,
                mgmt_path(self.root@),
                with_options(cmd1("add_target"@, name@), pack_spec(options@)),
            ) && r->Ok_0.on_fail is None,
    {
        if contains_key(&self.targets, name) {
            return Err(ScstError::TargetExists(String::from_str(name)));
        }
        let cmd = cmd1_text("add_target", name);
        let params = target_param_list();
        let text = cmd_with_options(cmd, &params, options)?;
        Ok(mgmt(self.root.as_str(), text, None))
    }

    /// The write that removes target `name`, which must exist.
    pub fn del_target(&self, name: &str) -> (r: Result<ControlWrite, ScstError>)
        ensures
            !holds_key(self.targets@, name@) ==> fails_with(
                r,
                |e: ScstError| e is NoTarget,
                name@,
            ),
            holds_key(self.targets@, name@) ==> is_write(
                r,
                mgmt_path(self.root@),
                cmd1("del_target"@, name@),
            ) && r->Ok_0.on_fail is None,
    {
        if !contains_key(&self.targets, name) {
            return Err(ScstError::NoTarget(String::from_str(name)));
        }
        let text = cmd1_text("del_target", name);
        Ok(mgmt(self.root.as_str(), text, None))
    }

    fn target_attr_write(&self, verb: &str, name: &str, attr: &str, value: &str) -> (r: Result<
        ControlWrite,
        ScstError,
    >)
        ensures
            !holds_key(self.targets@, name@) ==> fails_with(
                r,
                |e: ScstError| e is NoTarget,
                name@,
            ),
            holds_key(self.targets@, name@) && !target_params().contains(attr@) ==> r is Err
                && r->Err_0 is TargetBadAttrs,
            holds_key(self.targets@, name@) && target_params().contains(attr@) ==> is_write(
                r,
                mgmt_path(self.root@),
                cmd1(cmd1(cmd1(verb@, name@), attr@), value@),
            ) && r->Ok_0.on_fail is None,
    {
        if !contains_key(&self.targets, name) {
            return Err(ScstError::NoTarget(String::from_str(name)));
        }
        let params = target_param_list();
        if !contains_str(&params, attr) {
            return Err(ScstError::TargetBadAttrs);
        }
        let a = cmd1_text(verb, name);
        let b = cmd1_text(a.as_str(), attr);
        let text = cmd1_text(b.as_str(), value);
        Ok(mgmt(self.root.as_str(), text, None))
    }

    /// The write that adds `value` to the attribute `attr` of target `name`.
    /// The target must exist and the attribute be one that can be added to.
    pub fn add_target_attribute(&self, name: &str, attr: &str, value: &str) -> (r: Result<
        ControlWrite,
        ScstError,
    >)
        ensures
            !holds_key(self.targets@, name@) ==> fails_with(
                r,
                |e: ScstError| e is NoTarget,
                name@,
            ),
            holds_key(self.targets@, name@) && !target_params().contains(attr@) ==> r is Err
                && r->Err_0 is TargetBadAttrs,
            holds_key(self.targets@, name@) && target_params().contains(attr@) ==> is_write(
                r,
                mgmt_path(self.root@),
                cmd1(cmd1(cmd1("add_target_attribute"@, name@), attr@), value@),
            ) && r->Ok_0.on_fail is None,
    {
        self.target_attr_write("add_target_attribute", name, attr, value)
    }

    /// The write that removes `value` from the attribute `attr` of target `name`.
    pub fn del_target_attribute(&self, name: &str, attr: &str, value: &str) -> (r: Result<
        ControlWrite,
        ScstError,
    >)
        ensures
            !holds_key(self.targets@, name@) ==> fails_with(
                r,
                |e: ScstError| e is NoTarget,
                name@,
            ),
            holds_key(self.targets@, name@) && !target_params().contains(attr@) ==> r is Err
                && r->Err_0 is TargetBadAttrs,
            holds_key(self.targets@, name@) && target_params().contains(attr@) ==> is_write(
                r,
                mgmt_path(self.root@),
                cmd1(cmd1(cmd1("del_target_attribute"@, name@), attr@), value@),
            ) && r->Ok_0.on_fail is None,
    {
        self.target_attr_write("del_target_attribute", name, attr, value)
    }

    fn attr_write(&self, verb: &str, attr: &str, value: &str) -> (r: Result<ControlWrite, ScstError>)
        ensures
            !driver_params().contains(attr@) ==> r is Err && r->Err_0 is TargetBadAttrs,
            driver_params().contains(attr@) ==> is_write(
                r,
                mgmt_path(self.root@),
                cmd1(cmd1(verb@, attr@), value@),
            ) && r->Ok_0.on_fail is None,
    {
        let params = driver_param_list();
        if !contains_str(&params, attr) {
            return Err(ScstError::TargetBadAttrs);
        }
        let a = cmd1_text(verb, attr);
        let text = cmd1_text(a.as_str(), value);
        Ok(mgmt(self.root.as_str(), text, None))
    }

    /// The write that adds `value` to the driver attribute `attr`.
    pub fn add_attribute(&self, attr: &str, value: &str) -> (r: Result<ControlWrite, ScstError>)
        ensures
            !driver_params().contains(attr@) ==> r is Err && r->Err_0 is TargetBadAttrs,
            driver_params().contains(attr@) ==> is_write(
                r,
                mgmt_path(self.root@),
                cmd1(cmd1("add_attribute"@, attr@), value@),
            ) && r->Ok_0.on_fail is None,
    {
        self.attr_write("add_attribute", attr, value)
    }

    /// The write that removes `value` from the driver attribute `attr`.
    pub fn del_attribute(&self, attr: &str, value: &str) -> (r: Result<ControlWrite, ScstError>)
        ensures
            !driver_params().contains(attr@) ==> r is Err && r->Err_0 is TargetBadAttrs,
            driver_params().contains(attr@) ==> is_write(
                r,
                mgmt_path(self.root@),
                cmd1(cmd1("del_attribute"@, attr@), value@),
            ) && r->Ok_0.on_fail is None,
    {
        self.attr_write("del_attribute", attr, value)
    }

    /// Builds the driver of the directory `root` from the contents of its
    /// `enabled`, `open_state` and `version` files and its targets; targets
    /// that failed to load are left out.
    pub fn load(
        root: &str,
        enabled: &str,
        open_state: &str,
        version: &str,
        targets: Vec<Result<Target, ScstError>>,
    ) -> (r: Result<Driver, ScstError>)
        ensures
            r is Ok <==> flag_of(enabled@) is Some,
            r is Err ==> r->Err_0 is BadValue,
            r is Ok ==> ({
                let d = r->Ok_0;
                &&& d.root@ == root@
                &&& d.name@ == base_of(root@)
                &&& d.enabled as int == flag_of(enabled@)->0
                &&& d.open_state@ == line_of(open_state@)
                &&& d.version@ == line_of(version@)
                &&& d.targets@ == gather_spec(targets@)
                &&& unique_keys(d.targets@)
            }),
    {
        let enabled = read_flag(enabled, "enabled")?;
        Ok(
            Driver {
                root: String::from_str(root),
                name: base_name(root),
                enabled,
                open_state: first_line(open_state),
                version: first_line(version),
                targets: gather(targets),
            },
        )
    }
}

impl Keyed for Driver {
    open spec fn key_spec(&self) -> Seq<char> {
        self.name@
    }

    fn key(&self) -> (r: String) {
        self.name.clone()
    }
}

} // verus!
