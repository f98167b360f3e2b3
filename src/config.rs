use vstd::prelude::*;

use crate::device::Device;
use crate::handler::Handler;
use crate::mgmt::Keyed;
use crate::options::strs;
use crate::target::{Driver, IniGroup, Lun, Target};

verus! {

/// A LUN as the configuration describes it.
#[derive(Debug, PartialEq, Eq)]
pub struct LunCfg {
    pub id: u64,
    pub device: String,
}

/// An initiator group as the configuration describes it.
#[derive(Debug, PartialEq, Eq)]
pub struct IniGroupCfg {
    pub name: String,
    pub luns: Vec<LunCfg>,
    pub initiators: Vec<String>,
}

/// A target as the configuration describes it.
#[derive(Debug, PartialEq, Eq)]
pub struct TargetCfg {
    pub name: String,
    pub enabled: i8,
    pub rel_tgt_id: u64,
    pub luns: Vec<LunCfg>,
    pub groups: Vec<IniGroupCfg>,
}

/// A driver as the configuration describes it.
#[derive(Debug, PartialEq, Eq)]
pub struct DriverCfg {
    pub name: String,
    pub enabled: i8,
    pub targets: Vec<TargetCfg>,
}

/// A device as the configuration describes it.
#[derive(Debug, PartialEq, Eq)]
pub struct DeviceCfg {
    pub name: String,
    pub filename: String,
    pub size: usize,
}

/// A handler as the configuration describes it.
#[derive(Debug, PartialEq, Eq)]
pub struct HanderCfg {
    pub name: String,
    pub devices: Vec<DeviceCfg>,
}

/// The desired state of the whole tree.
#[derive(Debug, PartialEq, Eq)]
pub struct Config {
    pub version: String,
    pub handlers: Vec<HanderCfg>,
    pub drivers: Vec<DriverCfg>,
}

impl Keyed for IniGroupCfg {
    open spec fn key_spec(&self) -> Seq<char> {
        self.name@
    }

    fn key(&self) -> (r: String) {
        self.name.clone()
    }
}

impl Keyed for TargetCfg {
    open spec fn key_spec(&self) -> Seq<char> {
        self.name@
    }

    fn key(&self) -> (r: String) {
        self.name.clone()
    }
}

impl Keyed for DeviceCfg {
    open spec fn key_spec(&self) -> Seq<char> {
        self.name@
    }

    fn key(&self) -> (r: String) {
        self.name.clone()
    }
}

impl Keyed for HanderCfg {
    open spec fn key_spec(&self) -> Seq<char> {
        self.name@
    }

    fn key(&self) -> (r: String) {
        self.name.clone()
    }
}

impl Keyed for DriverCfg {
    open spec fn key_spec(&self) -> Seq<char> {
        self.name@
    }

    fn key(&self) -> (r: String) {
        self.name.clone()
    }
}

pub open spec fn lun_cfg_of(c: LunCfg, l: Lun) -> bool {
    c.id == l.id && c.device@ == l.device@
}

pub open spec fn luns_cfg_of(c: Seq<LunCfg>, l: Seq<Lun>) -> bool {
    c.len() == l.len() && forall|i: int| 0 <= i < c.len() ==> lun_cfg_of(#[trigger] c[i], l[i])
}

pub open spec fn group_cfg_of(c: IniGroupCfg, g: IniGroup) -> bool {
    &&& c.name@ == g.name@
    &&& luns_cfg_of(c.luns@, g.luns@)
    &&& strs(c.initiators@) == strs(g.initiators@)
}

pub open spec fn target_cfg_of(c: TargetCfg, t: Target) -> bool {
    &&& c.name@ == t.name@
    &&& c.enabled == t.enabled
    &&& c.rel_tgt_id == t.rel_tgt_id
    &&& luns_cfg_of(c.luns@, t.luns@)
    &&& c.groups@.len() == t.ini_groups@.len()
    &&& forall|i: int|
        0 <= i < c.groups@.len() ==> group_cfg_of(#[trigger] c.groups@[i], t.ini_groups@[i])
}

pub open spec fn driver_cfg_of(c: DriverCfg, d: Driver) -> bool {
    &&& c.name@ == d.name@
    &&& c.enabled == d.enabled
    &&& c.targets@.len() == d.targets@.len()
    &&& forall|i: int|
        0 <= i < c.targets@.len() ==> target_cfg_of(#[trigger] c.targets@[i], d.targets@[i])
}

pub open spec fn device_cfg_of(c: DeviceCfg, d: Device) -> bool {
    c.name@ == d.name@ && c.filename@ == d.filename@ && c.size == d.size
}

pub open spec fn handler_cfg_of(c: HanderCfg, h: Handler) -> bool {
    &&& c.name@ == h.name@
    &&& c.devices@.len() == h.devices@.len()
    &&& forall|i: int|
        0 <= i < c.devices@.len() ==> device_cfg_of(#[trigger] c.devices@[i], h.devices@[i])
}

fn clone_strings(v: &Vec<String>) -> (r: Vec<String>)
    ensures
        r@ == v@,
{
    let mut r: Vec<String> = Vec::new();
    let mut i: usize = 0;
    while i < v.len()
        invariant
            i <= v@.len(),
            r@ == v@.take(i as int),
        decreases v.len() - i,
    {
        r.push(v[i].clone());
        assert(r@ =~= v@.take(i + 1));
        i = i + 1;
    }
    assert(v@.take(v@.len() as int) =~= v@);
    r
}

fn luns_cfg(luns: &Vec<Lun>) -> (r: Vec<LunCfg>)
    ensures
        luns_cfg_of(r@, luns@),
{
    let mut r: Vec<LunCfg> = Vec::new();
    let mut i: usize = 0;
    while i < luns.len()
        invariant
            i <= luns@.len(),
            r@.len() == i,
            forall|j: int| 0 <= j < i ==> lun_cfg_of(#[trigger] r@[j], luns@[j]),
        decreases luns.len() - i,
    {
        r.push(LunCfg::from_lun(&luns[i]));
        i = i + 1;
    }
    r
}

impl LunCfg {
    pub fn id(&self) -> (r: u64)
        ensures
            r == self.id,
    {
        self.id
    }

    pub fn device(&self) -> (r: &str)
        ensures
            r@ == self.device@,
    {
        self.device.as_str()
    }

    /// The description of a live LUN.
    pub fn from_lun(l: &Lun) -> (r: LunCfg)
        ensures
            lun_cfg_of(r, *l),
    {
        LunCfg { id: l.id, device: l.device.clone() }
    }
}

impl IniGroupCfg {
    pub fn name(&self) -> (r: &str)
        ensures
            r@ == self.name@,
    {
        self.name.as_str()
    }

    pub fn luns(&self) -> (r: &Vec<LunCfg>)
        ensures
            r@ == self.luns@,
    {
        &self.luns
    }

    pub fn initiators(&self) -> (r: &Vec<String>)
        ensures
            r@ == self.initiators@,
    {
        &self.initiators
    }

    /// The description of a live initiator group.
    pub fn from_group(g: &IniGroup) -> (r: IniGroupCfg)
        ensures
            group_cfg_of(r, *g),
    {
        IniGroupCfg {
            name: g.name.clone(),
            luns: luns_cfg(&g.luns),
            initiators: clone_strings(&g.initiators),
        }
    }
}

impl TargetCfg {
    pub fn name(&self) -> (r: &str)
        ensures
            r@ == self.name@,
    {
        self.name.as_str()
    }

    pub fn enabled(&self) -> (r: i8)
        ensures
            r == self.enabled,
    {
        self.enabled
    }

    pub fn rel_tgt_id(&self) -> (r: u64)
        ensures
            r == self.rel_tgt_id,
    {
        self.rel_tgt_id
    }

    pub fn luns(&self) -> (r: &Vec<LunCfg>)
        ensures
            r@ == self.luns@,
    {
        &self.luns
    }

    pub fn groups(&self) -> (r: &Vec<IniGroupCfg>)
        ensures
            r@ == self.groups@,
    {
        &self.groups
    }

    /// The description of a live target.
    pub fn from_target(t: &Target) -> (r: TargetCfg)
        ensures
            target_cfg_of(r, *t),
    {
        let mut groups: Vec<IniGroupCfg> = Vec::new();
        let mut i: usize = 0;
        while i < t.ini_groups.len()
            invariant
                i <= t.ini_groups@.len(),
                groups@.len() == i,
                forall|j: int| 0 <= j < i ==> group_cfg_of(#[trigger] groups@[j], t.ini_groups@[j]),
            decreases t.ini_groups.len() - i,
        {
            groups.push(IniGroupCfg::from_group(&t.ini_groups[i]));
            i = i + 1;
        }
        TargetCfg {
            name: t.name.clone(),
            enabled: t.enabled,
            rel_tgt_id: t.rel_tgt_id,
            luns: luns_cfg(&t.luns),
            groups,
        }
    }
}

impl DriverCfg {
    pub fn name(&self) -> (r: &str)
        ensures
            r@ == self.name@,
    {
        self.name.as_str()
    }

    pub fn enabled(&self) -> (r: i8)
        ensures
            r == self.enabled,
    {
        self.enabled
    }

    pub fn targets(&self) -> (r: &Vec<TargetCfg>)
        ensures
            r@ == self.targets@,
    {
        &self.targets
    }

    /// The description of a live driver.
    pub fn from_driver(d: &Driver) -> (r: DriverCfg)
        ensures
            driver_cfg_of(r, *d),
    {
        let mut targets: Vec<TargetCfg> = Vec::new();
        let mut i: usize = 0;
        while i < d.targets.len()
            invariant
                i <= d.targets@.len(),
                targets@.len() == i,
                forall|j: int| 0 <= j < i ==> target_cfg_of(#[trigger] targets@[j], d.targets@[j]),
            decreases d.targets.len() - i,
        {
            targets.push(TargetCfg::from_target(&d.targets[i]));
            i = i + 1;
        }
        DriverCfg { name: d.name.clone(), enabled: d.enabled, targets }
    }
}

impl DeviceCfg {
    pub fn name(&self) -> (r: &str)
        ensures
            r@ == self.name@,
    {
        self.name.as_str()
    }

    pub fn filename(&self) -> (r: &str)
        ensures
            r@ == self.filename@,
    {
        self.filename.as_str()
    }

    pub fn size(&self) -> (r: usize)
        ensures
            r == self.size,
    {
        self.size
    }

    /// The description of a live device.
    pub fn from_device(d: &Device) -> (r: DeviceCfg)
        ensures
            device_cfg_of(r, *d),
    {
        DeviceCfg { name: d.name.clone(), filename: d.filename.clone(), size: d.size }
    }
}

impl HanderCfg {
    pub fn name(&self) -> (r: &str)
        ensures
            r@ == self.name@,
    {
        self.name.as_str()
    }

    pub fn devices(&self) -> (r: &Vec<DeviceCfg>)
        ensures
            r@ == self.devices@,
    {
        &self.devices
    }

    /// The description of a live handler.
    pub fn from_handler(h: &Handler) -> (r: HanderCfg)
        ensures
            handler_cfg_of(r, *h),
    {
        let mut devices: Vec<DeviceCfg> = Vec::new();
        let mut i: usize = 0;
        while i < h.devices.len()
            invariant
                i <= h.devices@.len(),
                devices@.len() == i,
                forall|j: int| 0 <= j < i ==> device_cfg_of(#[trigger] devices@[j], h.devices@[j]),
            decreases h.devices.len() - i,
        {
            devices.push(DeviceCfg::from_device(&h.devices[i]));
            i = i + 1;
        }
        HanderCfg { name: h.name.clone(), devices }
    }
}

impl Config {
    /// The description of the live handlers and drivers.
    pub fn new(handlers: &Vec<Handler>, drivers: &Vec<&Driver>, version: &str) -> (r: Config)
        ensures
            r.version@ == version@,
            r.handlers@.len() == handlers@.len(),
            forall|i: int|
                0 <= i < handlers@.len() ==> handler_cfg_of(#[trigger] r.handlers@[i], handlers@[i]),
            r.drivers@.len() == drivers@.len(),
            forall|i: int|
                0 <= i < drivers@.len() ==> driver_cfg_of(#[trigger] r.drivers@[i], *drivers@[i]),
    {
        let mut hs: Vec<HanderCfg> = Vec::new();
        let mut i: usize = 0;
        while i < handlers.len()
            invariant
                i <= handlers@.len(),
                hs@.len() == i,
                forall|j: int| 0 <= j < i ==> handler_cfg_of(#[trigger] hs@[j], handlers@[j]),
            decreases handlers.len() - i,
        {
            hs.push(HanderCfg::from_handler(&handlers[i]));
            i = i + 1;
        }
        let mut ds: Vec<DriverCfg> = Vec::new();
        let mut k: usize = 0;
        while k < drivers.len()
            invariant
                k <= drivers@.len(),
                ds@.len() == k,
                forall|j: int| 0 <= j < k ==> driver_cfg_of(#[trigger] ds@[j], *drivers@[j]),
            decreases drivers.len() - k,
        {
            ds.push(DriverCfg::from_driver(drivers[k]));
            k = k + 1;
        }
        Config { version: String::from_str(version), handlers: hs, drivers: ds }
    }

    pub fn handlers(&self) -> (r: &Vec<HanderCfg>)
        ensures
            r@ == self.handlers@,
    {
        &self.handlers
    }

    pub fn drivers(&self) -> (r: &Vec<DriverCfg>)
        ensures
            r@ == self.drivers@,
    {
        &self.drivers
    }

    pub fn version(&self) -> (r: &str)
        ensures
            r@ == self.version@,
    {
        self.version.as_str()
    }
}

} // verus!
