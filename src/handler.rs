use vstd::prelude::*;

use crate::device::Device;
use crate::error::ScstError;
use crate::mgmt::{
    fails_as, fails_with, find_key, gather, gather_spec, contains_key, holds_key, is_write, key_index,
    mgmt, mgmt_path, unique_keys, ControlWrite, Keyed,
};
use crate::options::{check_pack_ok, cmd_with_options, outside_keys, pack_spec, strs, with_options, Options};
use crate::text::{base_name, base_of, first_line, line_of};

verus! {

/// A storage back end and the devices registered under it.
#[derive(Debug, PartialEq, Eq)]
pub struct Handler {
    pub root: String,
    pub name: String,
    pub handler_type: String,
    pub devices: Vec<Device>,
}

impl Keyed for Handler {
    open spec fn key_spec(&self) -> Seq<char> {
        self.name@
    }

    fn key(&self) -> (r: String) {
        self.name.clone()
    }
}

/// The options that adding a device accepts.
pub open spec fn add_device_params() -> Seq<Seq<char>> {
    seq![
        "active"@,
        "bind_alua_state"@,
        "blocksize"@,
        "cluster_mode"@,
        "dif_filename"@,
        "dif_mode"@,
        "dif_static_app_tag"@,
        "dif_type"@,
        "filename"@,
        "numa_node_id"@,
        "nv_cache"@,
        "read_only"@,
        "removable"@,
        "rotational"@,
        "thin_provisioned"@,
        "tst"@,
        "write_through"@,
    ]
}

fn add_device_param_list() -> (r: Vec<String>)
    ensures
        strs(r@) == add_device_params(),
{
    let r = vec![
        String::from_str("active"),
        String::from_str("bind_alua_state"),
        String::from_str("blocksize"),
        String::from_str("cluster_mode"),
        String::from_str("dif_filename"),
        String::from_str("dif_mode"),
        String::from_str("dif_static_app_tag"),
        String::from_str("dif_type"),
        String::from_str("filename"),
        String::from_str("numa_node_id"),
        String::from_str("nv_cache"),
        String::from_str("read_only"),
        String::from_str("removable"),
        String::from_str("rotational"),
        String::from_str("thin_provisioned"),
        String::from_str("tst"),
        String::from_str("write_through"),
    ];
    assert(strs(r@) =~= add_device_params());
    r
}

/// The command that adds device `name` backed by `filename`.
pub open spec fn add_device_cmd(name: Seq<char>, filename: Seq<char>) -> Seq<char> {
    "add_device "@ + name + " filename="@ + filename
}

impl Handler {
    /// Well-formed: no two devices share a name.
    pub open spec fn wf(&self) -> bool {
        unique_keys(self.devices@)
    }

    pub fn name(&self) -> (r: &str)
        ensures
            r@ == self.name@,
    {
        self.name.as_str()
    }

    pub fn get_type(&self) -> (r: &str)
        ensures
            r@ == self.handler_type@,
    {
        self.handler_type.as_str()
    }

    pub fn devices(&self) -> (r: &Vec<Device>)
        ensures
            r@ == self.devices@,
    {
        &self.devices
    }

    /// The device of name `name`.
    pub fn get_device(&self, name: &str) -> (r: Result<&Device, ScstError>)
        ensures
            holds_key(self.devices@, name@) ==> r is Ok && *r->Ok_0 == self.devices@[key_index(
                self.devices@,
                name@,
            )],
            !holds_key(self.devices@, name@) ==> r is Err && r->Err_0 is NoDevice
                && r->Err_0->NoDevice_0@ == name@,
    {
        match find_key(&self.devices, name) {
            Some(i) => Ok(&self.devices[i]),
            None => Err(ScstError::NoDevice(String::from_str(name))),
        }
    }

    /// The write that adds device `name` backed by `filename`, with the
    /// device options `options`. A device of that name must not exist yet.
    pub fn add_device(&self, name: &str, filename: &str, options: &Options) -> (r: Result<
        ControlWrite,
        ScstError,
    >)
        ensures
            holds_key(self.devices@, name@) ==> fails_with(
                r,
                |e: ScstError| e is DeviceExists,
                name@,
            ),
            !holds_key(self.devices@, name@) && !check_pack_ok(options@, add_device_params())
                ==> r is Err && r->Err_0 is InvalidParams && strs(r->Err_0->InvalidParams_0@)
                == outside_keys(options@, add_device_params()),
            !holds_key(self.devices@, name@) && check_pack_ok(options@, add_device_params())
                ==> is_write(
                r,
                mgmt_path(self.root@),
                with_options(add_device_cmd(name@, filename@), pack_spec(options@)),
            ) && fails_as(r, |e: ScstError| e is DeviceAddFail, name@),
    {
        if contains_key(&self.devices, name) {
            return Err(ScstError::DeviceExists(String::from_str(name)));
        }
        let mut cmd = String::from_str("add_device ");
        cmd.append(name);
        cmd.append(" filename=");
        cmd.append(filename);
        let params = add_device_param_list();
        let text = cmd_with_options(cmd, &params, options)?;
        let fail = ScstError::DeviceAddFail { name: String::from_str(name), e: String::new() };
        Ok(mgmt(self.root.as_str(), text, Some(fail)))
    }

    /// The write that removes device `name`, which must exist.
    pub fn del_device(&self, name: &str) -> (r: Result<ControlWrite, ScstError>)
        ensures
            !holds_key(self.devices@, name@) ==> fails_with(
                r,
                |e: ScstError| e is NoDevice,
                name@,
            ),
            holds_key(self.devices@, name@) ==> is_write(
                r,
                mgmt_path(self.root@),
                "del_device "@ + name@,
            ) && r->Ok_0.on_fail is None,
    {
        if !contains_key(&self.devices, name) {
            return Err(ScstError::NoDevice(String::from_str(name)));
        }
        let mut cmd = String::from_str("del_device ");
        cmd.append(name);
        Ok(mgmt(self.root.as_str(), cmd, None))
    }

    /// Builds the handler of the directory `root` from the content of its
    /// `type` file and the devices of its subdirectories; those that failed
    /// to load are left out.
    pub fn load(root: &str, type_text: &str, devices: Vec<Result<Device, ScstError>>) -> (r:
        Handler)
        ensures
            r.root@ == root@,
            r.name@ == base_of(root@),
            r.handler_type@ == line_of(type_text@),
            r.devices@ == gather_spec(devices@),
            r.wf(),
    {
        Handler {
            root: String::from_str(root),
            name: base_name(root),
            handler_type: first_line(type_text),
            devices: gather(devices),
        }
    }
}

} // verus!
