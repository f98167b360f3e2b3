use vstd::prelude::*;

use crate::config::{Config, DriverCfg, HanderCfg, IniGroupCfg, LunCfg, TargetCfg};
use crate::copy_manager::CopyManager;
use crate::error::ScstError;
use crate::handler::{add_device_cmd, Handler};
use crate::mgmt::{
    contains_key, enabled_path, fails_with, find_key, gather, gather_spec, holds_key, is_write,
    key_index, mgmt_path, unique_keys, ControlWrite, Keyed,
};
use crate::options::{strs, Options};
use crate::target::{cmd1, lun_cmd, lun_key, Driver, IniGroup, Lun};
use crate::text::{dec_seq, dec_string, first_line, join_spec, line_of};

verus! {

/// One step of bringing the live tree to a configuration: each adds an
/// entity that is missing, or enables one.
#[derive(Debug, PartialEq, Eq)]
pub enum Step {
    AddDevice { handler: String, name: String, filename: String },
    EnableDriver,
    AddTarget { target: String },
    AddLun { target: String, device: String, id: u64 },
    CreateGroup { target: String, group: String },
    AddGroupLun { target: String, group: String, device: String, id: u64 },
    AddInitiator { target: String, group: String, initiator: String },
    EnableTarget { target: String },
}

/// The step that adds LUN `l` to a target, or to its group `group`.
pub open spec fn lun_step(target: String, group: Option<String>, l: LunCfg) -> Step {
    match group {
        Some(g) => Step::AddGroupLun { target, group: g, device: l.device, id: l.id },
        None => Step::AddLun { target, device: l.device, id: l.id },
    }
}

pub open spec fn cfg_has_id(c: Seq<LunCfg>, id: u64) -> bool {
    exists|i: int| 0 <= i < c.len() && c[i].id == id
}

/// The steps that add the LUNs of `c` whose numbers are neither live nor
/// listed earlier.
pub open spec fn lun_steps(target: String, group: Option<String>, live: Seq<Lun>, c: Seq<LunCfg>) -> Seq<
    Step,
>
    decreases c.len(),
{
    if c.len() == 0 {
        Seq::empty()
    } else {
        let l = c.last();
        lun_steps(target, group, live, c.drop_last()) + if holds_key(live, lun_key(l.id))
            || cfg_has_id(c.drop_last(), l.id) {
            Seq::<Step>::empty()
        } else {
            seq![lun_step(target, group, l)]
        }
    }
}

/// The steps that add the initiators of `c` that are neither live nor listed earlier.
pub open spec fn ini_steps(target: String, group: String, live: Seq<String>, c: Seq<String>) -> Seq<
    Step,
>
    decreases c.len(),
{
    if c.len() == 0 {
        Seq::empty()
    } else {
        let x = c.last();
        ini_steps(target, group, live, c.drop_last()) + if strs(live).contains(x@) || strs(
            c.drop_last(),
        ).contains(x@) {
            Seq::<Step>::empty()
        } else {
            seq![Step::AddInitiator { target, group, initiator: x }]
        }
    }
}

/// The steps for group `g` of a target whose live groups are `live`: create
/// it if it is missing, then add its missing LUNs and initiators.
pub open spec fn group_steps(target: String, live: Seq<IniGroup>, g: IniGroupCfg) -> Seq<Step> {
    let present = holds_key(live, g.name@);
    let lg = live[key_index(live, g.name@)];
    (if present {
        Seq::<Step>::empty()
    } else {
        seq![Step::CreateGroup { target, group: g.name }]
    }) + lun_steps(
        target,
        Some(g.name),
        if present { lg.luns@ } else { Seq::empty() },
        g.luns@,
    ) + ini_steps(target, g.name, if present { lg.initiators@ } else { Seq::empty() }, g.initiators@)
}

pub open spec fn groups_steps(target: String, live: Seq<IniGroup>, c: Seq<IniGroupCfg>) -> Seq<Step>
    decreases c.len(),
{
    if c.len() == 0 {
        Seq::empty()
    } else {
        groups_steps(target, live, c.drop_last()) + group_steps(target, live, c.last())
    }
}

/// The steps for target `tc` of driver `d`: create it if it is missing, add
/// its missing LUNs and groups, and enable it if it should be and is not.
pub open spec fn target_steps(d: Driver, tc: TargetCfg) -> Seq<Step> {
    let present = holds_key(d.targets@, tc.name@);
    let lt = d.targets@[key_index(d.targets@, tc.name@)];
    (if present {
        Seq::<Step>::empty()
    } else {
        seq![Step::AddTarget { target: tc.name }]
    }) + lun_steps(tc.name, None, if present { lt.luns@ } else { Seq::empty() }, tc.luns@)
        + groups_steps(tc.name, if present { lt.ini_groups@ } else { Seq::empty() }, tc.groups@)
        + if tc.enabled == 1 && !(present && lt.enabled == 1) {
        seq![Step::EnableTarget { target: tc.name }]
    } else {
        Seq::<Step>::empty()
    }
}

pub open spec fn targets_steps(d: Driver, c: Seq<TargetCfg>) -> Seq<Step>
    decreases c.len(),
{
    if c.len() == 0 {
        Seq::empty()
    } else {
        targets_steps(d, c.drop_last()) + target_steps(d, c.last())
    }
}

/// The steps for a driver description, all of which go to the live driver `d`.
pub open spec fn driver_steps(d: Driver, dc: DriverCfg) -> Seq<Step> {
    (if dc.enabled == 1 && d.enabled != 1 {
        seq![Step::EnableDriver]
    } else {
        Seq::<Step>::empty()
    }) + targets_steps(d, dc.targets@)
}

pub open spec fn drivers_steps(d: Driver, c: Seq<DriverCfg>) -> Seq<Step>
    decreases c.len(),
{
    if c.len() == 0 {
        Seq::empty()
    } else {
        drivers_steps(d, c.drop_last()) + driver_steps(d, c.last())
    }
}

/// The steps that add the devices of handler description `hc` that are
/// neither live in `h` nor listed earlier.
pub open spec fn device_steps(h: Handler, hc: HanderCfg, c: Seq<crate::config::DeviceCfg>) -> Seq<
    Step,
>
    decreases c.len(),
{
    if c.len() == 0 {
        Seq::empty()
    } else {
        let x = c.last();
        device_steps(h, hc, c.drop_last()) + if holds_key(h.devices@, x.name@) || holds_key(
            c.drop_last(),
            x.name@,
        ) {
            Seq::<Step>::empty()
        } else {
            seq![Step::AddDevice { handler: hc.name, name: x.name, filename: x.filename }]
        }
    }
}

pub open spec fn handlers_steps(live: Seq<Handler>, c: Seq<HanderCfg>) -> Seq<Step>
    decreases c.len(),
{
    if c.len() == 0 {
        Seq::empty()
    } else {
        let hc = c.last();
        handlers_steps(live, c.drop_last()) + device_steps(
            live[key_index(live, hc.name@)],
            hc,
            hc.devices@,
        )
    }
}

/// Every handler that the configuration names is live.
pub open spec fn handlers_known(live: Seq<Handler>, c: Seq<HanderCfg>) -> bool {
    forall|i: int| 0 <= i < c.len() ==> holds_key(live, #[trigger] c[i].name@)
}

/// The steps that bring the live tree `s` to the configuration `cfg`: the
/// devices first, then for each driver description its switch and targets,
/// each target before its LUNs and groups, each group before its LUNs and
/// initiators.
pub open spec fn plan(s: Scst, cfg: Config) -> Seq<Step> {
    handlers_steps(s.handlers@, cfg.handlers@) + drivers_steps(s.iscsi_driver, cfg.drivers@)
}

/// The live tree holds every entity that the LUN list `c` describes.
pub open spec fn luns_cover(live: Seq<Lun>, c: Seq<LunCfg>) -> bool {
    forall|i: int| 0 <= i < c.len() ==> holds_key(live, lun_key(#[trigger] c[i].id))
}

pub open spec fn inis_cover(live: Seq<String>, c: Seq<String>) -> bool {
    forall|i: int| 0 <= i < c.len() ==> strs(live).contains((#[trigger] c[i])@)
}

pub open spec fn group_covers(live: Seq<IniGroup>, g: IniGroupCfg) -> bool {
    let lg = live[key_index(live, g.name@)];
    &&& holds_key(live, g.name@)
    &&& luns_cover(lg.luns@, g.luns@)
    &&& inis_cover(lg.initiators@, g.initiators@)
}

pub open spec fn target_covers(d: Driver, tc: TargetCfg) -> bool {
    let lt = d.targets@[key_index(d.targets@, tc.name@)];
    &&& holds_key(d.targets@, tc.name@)
    &&& luns_cover(lt.luns@, tc.luns@)
    &&& forall|i: int| 0 <= i < tc.groups@.len() ==> group_covers(lt.ini_groups@, #[trigger] tc.groups@[i])
    &&& tc.enabled == 1 ==> lt.enabled == 1
}

pub open spec fn driver_covers(d: Driver, dc: DriverCfg) -> bool {
    &&& dc.enabled == 1 ==> d.enabled == 1
    &&& forall|i: int| 0 <= i < dc.targets@.len() ==> target_covers(d, #[trigger] dc.targets@[i])
}

pub open spec fn handler_covers(live: Seq<Handler>, hc: HanderCfg) -> bool {
    let h = live[key_index(live, hc.name@)];
    &&& holds_key(live, hc.name@)
    &&& forall|i: int| 0 <= i < hc.devices@.len() ==> holds_key(h.devices@, #[trigger] hc.devices@[i].name@)
}

/// The live tree already holds every entity that `cfg` describes, enabled
/// where `cfg` asks for it.
pub open spec fn covers(s: Scst, cfg: Config) -> bool {
    &&& forall|i: int| 0 <= i < cfg.handlers@.len() ==> handler_covers(s.handlers@, #[trigger] cfg.handlers@[i])
    &&& forall|i: int| 0 <= i < cfg.drivers@.len() ==> driver_covers(s.iscsi_driver, #[trigger] cfg.drivers@[i])
}

/// The paths at which the control tree may be mounted, older layout first.
pub open spec fn root_old() -> Seq<char> {
    "/sys/kernel/scst_tgt"@
}

pub open spec fn root_new() -> Seq<char> {
    "/sys/devices/scst"@
}

/// The whole live tree: handlers, the iSCSI driver and the copy manager.
#[derive(Debug, PartialEq, Eq)]
pub struct Scst {
    pub root: String,
    pub version: String,
    pub handlers: Vec<Handler>,
    pub iscsi_driver: Driver,
    pub copy_driver: CopyManager,
}

fn deref_opt(o: Option<&String>) -> (r: Option<String>)
    ensures
        r == match o {
            Some(g) => Some(*g),
            None => None::<String>,
        },
{
    match o {
        Some(g) => Some(g.clone()),
        None => None,
    }
}

fn has_lun_id(c: &Vec<LunCfg>, n: usize, id: u64) -> (r: bool)
    requires
        n <= c@.len(),
    ensures
        r == cfg_has_id(c@.take(n as int), id),
{
    let mut j: usize = 0;
    while j < n
        invariant
            n <= c@.len(),
            j <= n,
            forall|k: int| 0 <= k < j ==> c@[k].id != id,
        decreases n - j,
    {
        if c[j].id == id {
            assert(c@.take(n as int)[j as int].id == id);
            return true;
        }
        j = j + 1;
    }
    proof {
        if cfg_has_id(c@.take(n as int), id) {
            let k = choose|k: int| 0 <= k < n && c@.take(n as int)[k].id == id;
            assert(c@[k].id == id);
        }
    }
    false
}

fn has_string(c: &Vec<String>, n: usize, s: &String) -> (r: bool)
    requires
        n <= c@.len(),
    ensures
        r == strs(c@.take(n as int)).contains(s@),
{
    let mut j: usize = 0;
    while j < n
        invariant
            n <= c@.len(),
            j <= n,
            forall|k: int| 0 <= k < j ==> c@[k]@ != s@,
        decreases n - j,
    {
        if c[j] == *s {
            assert(strs(c@.take(n as int))[j as int] == s@);
            return true;
        }
        j = j + 1;
    }
    proof {
        if strs(c@.take(n as int)).contains(s@) {
            let k = choose|k: int| 0 <= k < n && strs(c@.take(n as int))[k] == s@;
            assert(c@[k]@ == s@);
        }
    }
    false
}

fn plan_luns(
    target: &String,
    group: Option<&String>,
    live: &Vec<Lun>,
    c: &Vec<LunCfg>,
    out: &mut Vec<Step>,
)
    ensures
        final(out)@ == old(out)@ + lun_steps(
            *target,
            match group {
                Some(g) => Some(*g),
                None => None::<String>,
            },
            live@,
            c@,
        ),
{
    let ghost g = match group {
        Some(g) => Some(*g),
        None => None::<String>,
    };
    let ghost start = out@;
    let mut i: usize = 0;
    while i < c.len()
        invariant
            i <= c@.len(),
            g == match group {
                Some(x) => Some(*x),
                None => None::<String>,
            },
            out@ == start + lun_steps(*target, g, live@, c@.take(i as int)),
        decreases c.len() - i,
    {
        let ghost pre = c@.take(i as int);
        assert(c@.take(i + 1).drop_last() =~= pre);
        assert(c@.take(i + 1).last() == c@[i as int]);
        let l = &c[i];
        let mut key = String::from_str("lun");
        let n = dec_string(l.id);
        key.append(n.as_str());
        let in_live = contains_key(live, key.as_str());
        let earlier = has_lun_id(c, i, l.id);
        let known = in_live || earlier;
        assert(known == (holds_key(live@, lun_key(c@[i as int].id)) || cfg_has_id(pre, c@[i as int].id)));
        if !known {
            let t = target.clone();
            let dev = l.device.clone();
            assert(t == *target);
            assert(dev == c@[i as int].device);
            let step = match deref_opt(group) {
                Some(gname) => Step::AddGroupLun { target: t, group: gname, device: dev, id: l.id },
                None => Step::AddLun { target: t, device: dev, id: l.id },
            };
            assert(step == lun_step(*target, g, c@[i as int]));
            out.push(step);
        }
        assert(lun_steps(*target, g, live@, c@.take(i + 1)) == lun_steps(*target, g, live@, pre) + if known {
            Seq::<Step>::empty()
        } else {
            seq![lun_step(*target, g, c@[i as int])]
        });
        assert(out@ =~= start + lun_steps(*target, g, live@, c@.take(i + 1)));
        i = i + 1;
    }
    assert(c@.take(c@.len() as int) =~= c@);
}

fn plan_initiators(
    target: &String,
    group: &String,
    live: &Vec<String>,
    c: &Vec<String>,
    out: &mut Vec<Step>,
)
    ensures
        final(out)@ == old(out)@ + ini_steps(*target, *group, live@, c@),
{
    let ghost start = out@;
    let mut i: usize = 0;
    while i < c.len()
        invariant
            i <= c@.len(),
            out@ == start + ini_steps(*target, *group, live@, c@.take(i as int)),
        decreases c.len() - i,
    {
        let ghost pre = c@.take(i as int);
        assert(c@.take(i + 1).drop_last() =~= pre);
        assert(c@.take(i + 1).last() == c@[i as int]);
        let known = crate::options::contains_str(live, c[i].as_str()) || has_string(c, i, &c[i]);
        if !known {
            out.push(
                Step::AddInitiator {
                    target: target.clone(),
                    group: group.clone(),
                    initiator: c[i].clone(),
                },
            );
        }
        assert(out@ =~= start + ini_steps(*target, *group, live@, c@.take(i + 1)));
        i = i + 1;
    }
    assert(c@.take(c@.len() as int) =~= c@);
}

fn plan_groups(target: &String, live: &Vec<IniGroup>, c: &Vec<IniGroupCfg>, out: &mut Vec<Step>)
    ensures
        final(out)@ == old(out)@ + groups_steps(*target, live@, c@),
{
    let ghost start = out@;
    let no_luns: Vec<Lun> = Vec::new();
    let no_inis: Vec<String> = Vec::new();
    let mut i: usize = 0;
    while i < c.len()
        invariant
            i <= c@.len(),
            no_luns@ == Seq::<Lun>::empty(),
            no_inis@ == Seq::<String>::empty(),
            out@ == start + groups_steps(*target, live@, c@.take(i as int)),
        decreases c.len() - i,
    {
        assert(c@.take(i + 1).drop_last() =~= c@.take(i as int));
        assert(c@.take(i + 1).last() == c@[i as int]);
        let ghost mid = out@;
        let g = &c[i];
        match find_key(live, g.name.as_str()) {
            Some(k) => {
                let lg = &live[k];
                plan_luns(target, Some(&g.name), &lg.luns, &g.luns, out);
                plan_initiators(target, &g.name, &lg.initiators, &g.initiators, out);
            },
            None => {
                out.push(Step::CreateGroup { target: target.clone(), group: g.name.clone() });
                plan_luns(target, Some(&g.name), &no_luns, &g.luns, out);
                plan_initiators(target, &g.name, &no_inis, &g.initiators, out);
            },
        }
        assert(out@ =~= mid + group_steps(*target, live@, c@[i as int]));
        assert(out@ =~= start + groups_steps(*target, live@, c@.take(i + 1)));
        i = i + 1;
    }
    assert(c@.take(c@.len() as int) =~= c@);
}

fn plan_target(d: &Driver, tc: &TargetCfg, out: &mut Vec<Step>)
    ensures
        final(out)@ == old(out)@ + target_steps(*d, *tc),
{
    let ghost start = out@;
    let no_luns: Vec<Lun> = Vec::new();
    let no_groups: Vec<IniGroup> = Vec::new();
    let live_enabled: bool;
    match find_key(&d.targets, tc.name.as_str()) {
        Some(k) => {
            let lt = &d.targets[k];
            plan_luns(&tc.name, None, &lt.luns, &tc.luns, out);
            plan_groups(&tc.name, &lt.ini_groups, &tc.groups, out);
            live_enabled = lt.enabled == 1;
        },
        None => {
            out.push(Step::AddTarget { target: tc.name.clone() });
            plan_luns(&tc.name, None, &no_luns, &tc.luns, out);
            plan_groups(&tc.name, &no_groups, &tc.groups, out);
            live_enabled = false;
        },
    }
    if tc.enabled == 1 && !live_enabled {
        out.push(Step::EnableTarget { target: tc.name.clone() });
    }
    assert(out@ =~= start + target_steps(*d, *tc));
}

fn plan_driver(d: &Driver, dc: &DriverCfg, out: &mut Vec<Step>)
    ensures
        final(out)@ == old(out)@ + driver_steps(*d, *dc),
{
    let ghost start = out@;
    if dc.enabled == 1 && d.enabled != 1 {
        out.push(Step::EnableDriver);
    }
    let ghost mid = out@;
    let c = &dc.targets;
    let mut i: usize = 0;
    while i < c.len()
        invariant
            i <= c@.len(),
            c@ == dc.targets@,
            out@ == mid + targets_steps(*d, c@.take(i as int)),
        decreases c.len() - i,
    {
        assert(c@.take(i + 1).drop_last() =~= c@.take(i as int));
        assert(c@.take(i + 1).last() == c@[i as int]);
        plan_target(d, &c[i], out);
        assert(out@ =~= mid + targets_steps(*d, c@.take(i + 1)));
        i = i + 1;
    }
    assert(c@.take(c@.len() as int) =~= c@);
    assert(out@ =~= start + driver_steps(*d, *dc));
}

fn plan_devices(h: &Handler, hc: &HanderCfg, out: &mut Vec<Step>)
    ensures
        final(out)@ == old(out)@ + device_steps(*h, *hc, hc.devices@),
{
    let ghost start = out@;
    let c = &hc.devices;
    let mut i: usize = 0;
    while i < c.len()
        invariant
            i <= c@.len(),
            c@ == hc.devices@,
            out@ == start + device_steps(*h, *hc, c@.take(i as int)),
        decreases c.len() - i,
    {
        let ghost pre = c@.take(i as int);
        assert(c@.take(i + 1).drop_last() =~= pre);
        assert(c@.take(i + 1).last() == c@[i as int]);
        let x = &c[i];
        let mut earlier = false;
        let mut j: usize = 0;
        while j < i
            invariant
                j <= i,
                i < c@.len(),
                pre == c@.take(i as int),
                earlier == holds_key(pre.take(j as int), x.name@),
            decreases i - j,
        {
            assert(pre.take(j + 1).drop_last() =~= pre.take(j as int));
            if c[j].name == x.name {
                earlier = true;
            }
            proof {
                let q = pre.take(j + 1);
                if holds_key(q, x.name@) && !holds_key(pre.take(j as int), x.name@) {
                    let w = choose|w: int| 0 <= w < q.len() && q[w].name@ == x.name@;
                    if w < j {
                        assert(pre.take(j as int)[w] == q[w]);
                    }
                }
                if holds_key(pre.take(j as int), x.name@) {
                    let w = choose|w: int|
                        0 <= w < pre.take(j as int).len() && pre.take(j as int)[w].name@ == x.name@;
                    assert(q[w] == pre.take(j as int)[w]);
                }
                if c[j as int].name@ == x.name@ {
                    assert(q[j as int] == c@[j as int]);
                }
            }
            j = j + 1;
        }
        assert(pre.take(i as int) =~= pre);
        if !contains_key(&h.devices, x.name.as_str()) && !earlier {
            out.push(
                Step::AddDevice {
                    handler: hc.name.clone(),
                    name: x.name.clone(),
                    filename: x.filename.clone(),
                },
            );
        }
        assert(out@ =~= start + device_steps(*h, *hc, c@.take(i + 1)));
        i = i + 1;
    }
    assert(c@.take(c@.len() as int) =~= c@);
}

impl Scst {
    /// Well-formed: handler names are unique, each handler and the driver
    /// are well-formed.
    pub open spec fn wf(&self) -> bool {
        &&& unique_keys(self.handlers@)
        &&& forall|i: int| 0 <= i < self.handlers@.len() ==> (#[trigger] self.handlers@[i]).wf()
        &&& self.iscsi_driver.wf()
    }

    /// The mount point to use, given whether the older and the newer one
    /// exist; the older layout wins.
    pub fn init(old_exists: bool, new_exists: bool) -> (r: Result<String, ScstError>)
        ensures
            old_exists ==> r is Ok && r->Ok_0@ == root_old(),
            !old_exists && new_exists ==> r is Ok && r->Ok_0@ == root_new(),
            !old_exists && !new_exists ==> r == Err::<String, ScstError>(ScstError::NoModule),
    {
        if old_exists {
            Ok(String::from_str("/sys/kernel/scst_tgt"))
        } else if new_exists {
            Ok(String::from_str("/sys/devices/scst"))
        } else {
            Err(ScstError::NoModule)
        }
    }

    /// The tree mounted at `root`, from the content of its `version` file,
    /// the handlers of its `handlers` directory (those that failed to load
    /// are left out), and its two drivers, which must have loaded.
    pub fn load(
        root: &str,
        version: &str,
        handlers: Vec<Result<Handler, ScstError>>,
        iscsi_driver: Result<Driver, ScstError>,
        copy_driver: Result<CopyManager, ScstError>,
    ) -> (r: Result<Scst, ScstError>)
        ensures
            iscsi_driver is Err ==> r is Err && r->Err_0 == iscsi_driver->Err_0,
            iscsi_driver is Ok && copy_driver is Err ==> r is Err && r->Err_0
                == copy_driver->Err_0,
            iscsi_driver is Ok && copy_driver is Ok ==> r is Ok && ({
                let s = r->Ok_0;
                &&& s.root@ == root@
                &&& s.version@ == line_of(version@)
                &&& s.handlers@ == gather_spec(handlers@)
                &&& unique_keys(s.handlers@)
                &&& s.iscsi_driver == iscsi_driver->Ok_0
                &&& s.copy_driver == copy_driver->Ok_0
            }),
    {
        let iscsi_driver = iscsi_driver?;
        let copy_driver = copy_driver?;
        Ok(
            Scst {
                root: String::from_str(root),
                version: first_line(version),
                handlers: gather(handlers),
                iscsi_driver,
                copy_driver,
            },
        )
    }

    pub fn version(&self) -> (r: &str)
        ensures
            r@ == self.version@,
    {
        self.version.as_str()
    }

    pub fn handlers(&self) -> (r: &Vec<Handler>)
        ensures
            r@ == self.handlers@,
    {
        &self.handlers
    }

    /// The handler of name `name`.
    pub fn get_handler(&self, name: &str) -> (r: Result<&Handler, ScstError>)
        ensures
            holds_key(self.handlers@, name@) ==> r is Ok && *r->Ok_0 == self.handlers@[key_index(
                self.handlers@,
                name@,
            )],
            !holds_key(self.handlers@, name@) ==> r is Err && r->Err_0 is NoHandler
                && r->Err_0->NoHandler_0@ == name@,
    {
        match find_key(&self.handlers, name) {
            Some(i) => Ok(&self.handlers[i]),
            None => Err(ScstError::NoHandler(String::from_str(name))),
        }
    }

    /// The handler of name `name`, to change in place.
    pub fn get_handler_mut(&mut self, name: &str) -> (r: Result<&mut Handler, ScstError>)
        ensures
            holds_key(old(self).handlers@, name@) ==> r is Ok && *r->Ok_0 == old(self).handlers@[key_index(
                old(self).handlers@,
                name@,
            )] && final(self).handlers@ == old(self).handlers@.update(
                key_index(old(self).handlers@, name@),
                *final(r->Ok_0),
            ),
            !holds_key(old(self).handlers@, name@) ==> r is Err && r->Err_0 is NoHandler
                && r->Err_0->NoHandler_0@ == name@ && *final(self) == *old(self),
            final(self).root == old(self).root && final(self).version == old(self).version && final(self).iscsi_driver == old(self).iscsi_driver && final(self).copy_driver == old(self).copy_driver,
    {
        match find_key(&self.handlers, name) {
            Some(i) => Ok(&mut self.handlers[i]),
            None => Err(ScstError::NoHandler(String::from_str(name))),
        }
    }

    /// The iSCSI driver, to change in place.
    pub fn iscsi_mut(&mut self) -> (r: &mut Driver)
        ensures
            *r == old(self).iscsi_driver,
            final(self).iscsi_driver == *final(r),
            final(self).root == old(self).root && final(self).version == old(self).version
                && final(self).handlers == old(self).handlers && final(self).copy_driver == old(
                self,
            ).copy_driver,
    {
        &mut self.iscsi_driver
    }

    pub fn iscsi(&self) -> (r: &Driver)
        ensures
            *r == self.iscsi_driver,
    {
        &self.iscsi_driver
    }

    pub fn copy_manager(&self) -> (r: &CopyManager)
        ensures
            *r == self.copy_driver,
    {
        &self.copy_driver
    }

    /// The write that adds device `name` backed by `filename` under handler
    /// `handler`, which must exist; see `Handler::add_device`.
    pub fn add_device(&self, handler: &str, name: &str, filename: &str, options: &Options) -> (r:
        Result<ControlWrite, ScstError>)
        ensures
            !holds_key(self.handlers@, handler@) ==> fails_with(
                r,
                |e: ScstError| e is NoHandler,
                handler@,
            ),
            holds_key(self.handlers@, handler@) ==> {
                let h = self.handlers@[key_index(self.handlers@, handler@)];
                &&& holds_key(h.devices@, name@) ==> fails_with(
                    r,
                    |e: ScstError| e is DeviceExists,
                    name@,
                )
                &&& !holds_key(h.devices@, name@) && crate::options::check_pack_ok(
                    options@,
                    crate::handler::add_device_params(),
                ) ==> is_write(
                    r,
                    mgmt_path(h.root@),
                    crate::options::with_options(
                        add_device_cmd(name@, filename@),
                        crate::options::pack_spec(options@),
                    ),
                )
                &&& !holds_key(h.devices@, name@) && !crate::options::check_pack_ok(
                    options@,
                    crate::handler::add_device_params(),
                ) ==> r is Err && r->Err_0 is InvalidParams
            },
    {
        let h = self.get_handler(handler)?;
        h.add_device(name, filename, options)
    }

    /// The write that removes device `name` of handler `handler`; both must exist.
    pub fn del_device(&self, handler: &str, name: &str) -> (r: Result<ControlWrite, ScstError>)
        ensures
            !holds_key(self.handlers@, handler@) ==> fails_with(
                r,
                |e: ScstError| e is NoHandler,
                handler@,
            ),
            holds_key(self.handlers@, handler@) ==> {
                let h = self.handlers@[key_index(self.handlers@, handler@)];
                &&& !holds_key(h.devices@, name@) ==> fails_with(
                    r,
                    |e: ScstError| e is NoDevice,
                    name@,
                )
                &&& holds_key(h.devices@, name@) ==> is_write(
                    r,
                    mgmt_path(h.root@),
                    "del_device "@ + name@,
                )
            },
    {
        let h = self.get_handler(handler)?;
        h.del_device(name)
    }

    /// The steps that bring the live tree to the configuration `cfg`, in
    /// order; see `plan`. Nothing that is live is removed. Every handler that
    /// `cfg` names must be live: the first that is not is the error, found
    /// before any step is taken.
    pub fn from_cfg(&self, cfg: &Config) -> (r: Result<Vec<Step>, ScstError>)
        ensures
            handlers_known(self.handlers@, cfg.handlers@) ==> r is Ok && r->Ok_0@ == plan(
                *self,
                *cfg,
            ),
            !handlers_known(self.handlers@, cfg.handlers@) ==> r is Err && r->Err_0 is NoHandler
                && exists|i: int|
                0 <= i < cfg.handlers@.len() && !holds_key(self.handlers@, cfg.handlers@[i].name@)
                    && handlers_known(self.handlers@, cfg.handlers@.take(i))
                    && r->Err_0->NoHandler_0@ == cfg.handlers@[i].name@,
    {
        let c = &cfg.handlers;
        let mut out: Vec<Step> = Vec::new();
        let mut i: usize = 0;
        while i < c.len()
            invariant
                i <= c@.len(),
                c@ == cfg.handlers@,
                handlers_known(self.handlers@, c@.take(i as int)),
                out@ == handlers_steps(self.handlers@, c@.take(i as int)),
            decreases c.len() - i,
        {
            assert(c@.take(i + 1).drop_last() =~= c@.take(i as int));
            assert(c@.take(i + 1).last() == c@[i as int]);
            let hc = &c[i];
            match find_key(&self.handlers, hc.name.as_str()) {
                Some(k) => {
                    plan_devices(&self.handlers[k], hc, &mut out);
                },
                None => {
                    assert(!handlers_known(self.handlers@, cfg.handlers@));
                    return Err(ScstError::NoHandler(hc.name.clone()));
                },
            }
            assert(out@ =~= handlers_steps(self.handlers@, c@.take(i + 1)));
            assert forall|j: int| 0 <= j < i + 1 implies holds_key(
                self.handlers@,
                #[trigger] c@.take(i + 1)[j].name@,
            ) by {
                if j < i {
                    assert(c@.take(i + 1)[j] == c@.take(i as int)[j]);
                }
            }
            i = i + 1;
        }
        assert(c@.take(c@.len() as int) =~= c@);
        let d = &cfg.drivers;
        let ghost mid = out@;
        let mut k: usize = 0;
        while k < d.len()
            invariant
                k <= d@.len(),
                d@ == cfg.drivers@,
                out@ == mid + drivers_steps(self.iscsi_driver, d@.take(k as int)),
            decreases d.len() - k,
        {
            assert(d@.take(k + 1).drop_last() =~= d@.take(k as int));
            assert(d@.take(k + 1).last() == d@[k as int]);
            plan_driver(&self.iscsi_driver, &d[k], &mut out);
            assert(out@ =~= mid + drivers_steps(self.iscsi_driver, d@.take(k + 1)));
            k = k + 1;
        }
        assert(d@.take(d@.len() as int) =~= d@);
        Ok(out)
    }

    /// The write that carries out `step` on the live tree, made with no
    /// options: the entities it names must be live, and the one it adds
    /// must not be.
    pub fn step_write(&self, step: &Step) -> (r: Result<ControlWrite, ScstError>)
        ensures
            match *step {
                Step::AddDevice { handler, name, filename } => {
                    let h = self.handlers@[key_index(self.handlers@, handler@)];
                    &&& !holds_key(self.handlers@, handler@) ==> fails_with(
                        r,
                        |e: ScstError| e is NoHandler,
                        handler@,
                    )
                    &&& holds_key(self.handlers@, handler@) && holds_key(h.devices@, name@)
                        ==> fails_with(r, |e: ScstError| e is DeviceExists, name@)
                    &&& holds_key(self.handlers@, handler@) && !holds_key(h.devices@, name@)
                        ==> is_write(r, mgmt_path(h.root@), add_device_cmd(name@, filename@))
                },
                Step::EnableDriver => is_write(r, enabled_path(self.iscsi_driver.root@), "1"@),
                Step::AddTarget { target } => {
                    let d = self.iscsi_driver;
                    &&& holds_key(d.targets@, target@) ==> fails_with(
                        r,
                        |e: ScstError| e is TargetExists,
                        target@,
                    )
                    &&& !holds_key(d.targets@, target@) ==> is_write(
                        r,
                        mgmt_path(d.root@),
                        cmd1("add_target"@, target@),
                    )
                },
                Step::AddLun { target, device, id } => {
                    let d = self.iscsi_driver;
                    let t = d.targets@[key_index(d.targets@, target@)];
                    &&& !holds_key(d.targets@, target@) ==> fails_with(
                        r,
                        |e: ScstError| e is NoTarget,
                        target@,
                    )
                    &&& holds_key(d.targets@, target@) && holds_key(t.luns@, lun_key(id))
                        ==> fails_with(r, |e: ScstError| e is TargetLunExists, dec_seq(id as nat))
                    &&& holds_key(d.targets@, target@) && !holds_key(t.luns@, lun_key(id))
                        ==> is_write(
                        r,
                        mgmt_path(join_spec(t.root@, "luns"@)),
                        lun_cmd("add"@, device@, id),
                    )
                },
                Step::CreateGroup { target, group } => {
                    let d = self.iscsi_driver;
                    let t = d.targets@[key_index(d.targets@, target@)];
                    &&& !holds_key(d.targets@, target@) ==> fails_with(
                        r,
                        |e: ScstError| e is NoTarget,
                        target@,
                    )
                    &&& holds_key(d.targets@, target@) && holds_key(t.ini_groups@, group@)
                        ==> fails_with(r, |e: ScstError| e is GroupExists, group@)
                    &&& holds_key(d.targets@, target@) && !holds_key(t.ini_groups@, group@)
                        ==> is_write(
                        r,
                        mgmt_path(join_spec(t.root@, "ini_groups"@)),
                        cmd1("create"@, group@),
                    )
                },
                Step::AddGroupLun { target, group, device, id } => {
                    let d = self.iscsi_driver;
                    let t = d.targets@[key_index(d.targets@, target@)];
                    let g = t.ini_groups@[key_index(t.ini_groups@, group@)];
                    &&& !holds_key(d.targets@, target@) ==> fails_with(
                        r,
                        |e: ScstError| e is NoTarget,
                        target@,
                    )
                    &&& holds_key(d.targets@, target@) && !holds_key(t.ini_groups@, group@)
                        ==> fails_with(r, |e: ScstError| e is NoGroup, group@)
                    &&& holds_key(d.targets@, target@) && holds_key(t.ini_groups@, group@)
                        && holds_key(g.luns@, lun_key(id)) ==> fails_with(
                        r,
                        |e: ScstError| e is GroupLunExists,
                        dec_seq(id as nat),
                    )
                    &&& holds_key(d.targets@, target@) && holds_key(t.ini_groups@, group@)
                        && !holds_key(g.luns@, lun_key(id)) ==> is_write(
                        r,
                        mgmt_path(join_spec(g.root@, "luns"@)),
                        lun_cmd("add"@, device@, id),
                    )
                },
                Step::AddInitiator { target, group, initiator } => {
                    let d = self.iscsi_driver;
                    let t = d.targets@[key_index(d.targets@, target@)];
                    let g = t.ini_groups@[key_index(t.ini_groups@, group@)];
                    &&& !holds_key(d.targets@, target@) ==> fails_with(
                        r,
                        |e: ScstError| e is NoTarget,
                        target@,
                    )
                    &&& holds_key(d.targets@, target@) && !holds_key(t.ini_groups@, group@)
                        ==> fails_with(r, |e: ScstError| e is NoGroup, group@)
                    &&& holds_key(d.targets@, target@) && holds_key(t.ini_groups@, group@)
                        && strs(g.initiators@).contains(initiator@) ==> fails_with(
                        r,
                        |e: ScstError| e is GroupIniExists,
                        initiator@,
                    )
                    &&& holds_key(d.targets@, target@) && holds_key(t.ini_groups@, group@)
                        && !strs(g.initiators@).contains(initiator@) ==> is_write(
                        r,
                        mgmt_path(join_spec(g.root@, "initiators"@)),
                        cmd1("add"@, initiator@),
                    )
                },
                Step::EnableTarget { target } => {
                    let d = self.iscsi_driver;
                    let t = d.targets@[key_index(d.targets@, target@)];
                    &&& !holds_key(d.targets@, target@) ==> fails_with(
                        r,
                        |e: ScstError| e is NoTarget,
                        target@,
                    )
                    &&& holds_key(d.targets@, target@) ==> is_write(
                        r,
                        enabled_path(t.root@),
                        "1"@,
                    )
                },
            },
    {
        let none = Options::new();
        match step {
            Step::AddDevice { handler, name, filename } => {
                let h = self.get_handler(handler.as_str())?;
                h.add_device(name.as_str(), filename.as_str(), &none)
            },
            Step::EnableDriver => Ok(self.iscsi_driver.enable()),
            Step::AddTarget { target } => self.iscsi_driver.add_target(target.as_str(), &none),
            Step::AddLun { target, device, id } => {
                let t = self.iscsi_driver.get_target(target.as_str())?;
                t.add_lun(device.as_str(), *id, &none)
            },
            Step::CreateGroup { target, group } => {
                let t = self.iscsi_driver.get_target(target.as_str())?;
                t.create_ini_group(group.as_str())
            },
            Step::AddGroupLun { target, group, device, id } => {
                let t = self.iscsi_driver.get_target(target.as_str())?;
                let g = t.get_ini_group(group.as_str())?;
                g.add_lun(device.as_str(), *id, &none)
            },
            Step::AddInitiator { target, group, initiator } => {
                let t = self.iscsi_driver.get_target(target.as_str())?;
                let g = t.get_ini_group(group.as_str())?;
                g.add_initiator(initiator.as_str())
            },
            Step::EnableTarget { target } => {
                let t = self.iscsi_driver.get_target(target.as_str())?;
                Ok(t.enable())
            },
        }
    }

    /// The description of the live handlers and of the iSCSI driver.
    pub fn to_cfg(&self) -> (r: Config)
        ensures
            r.version@ == self.version@,
            r.handlers@.len() == self.handlers@.len(),
            forall|i: int|
                0 <= i < self.handlers@.len() ==> crate::config::handler_cfg_of(
                    #[trigger] r.handlers@[i],
                    self.handlers@[i],
                ),
            r.drivers@.len() == 1,
            crate::config::driver_cfg_of(r.drivers@[0], self.iscsi_driver),
    {
        let drivers = vec![&self.iscsi_driver];
        Config::new(&self.handlers, &drivers, self.version.as_str())
    }
}

proof fn lemma_lun_steps_none(target: String, group: Option<String>, live: Seq<Lun>, c: Seq<LunCfg>)
    requires
        luns_cover(live, c),
    ensures
        lun_steps(target, group, live, c) == Seq::<Step>::empty(),
    decreases c.len(),
{
    if c.len() > 0 {
        let d = c.drop_last();
        assert forall|i: int| 0 <= i < d.len() implies holds_key(live, lun_key(#[trigger] d[i].id)) by {
            assert(d[i] == c[i]);
        }
        lemma_lun_steps_none(target, group, live, d);
        assert(holds_key(live, lun_key(c[c.len() - 1].id)));
    }
}

proof fn lemma_ini_steps_none(target: String, group: String, live: Seq<String>, c: Seq<String>)
    requires
        inis_cover(live, c),
    ensures
        ini_steps(target, group, live, c) == Seq::<Step>::empty(),
    decreases c.len(),
{
    if c.len() > 0 {
        let d = c.drop_last();
        assert forall|i: int| 0 <= i < d.len() implies strs(live).contains((#[trigger] d[i])@) by {
            assert(d[i] == c[i]);
        }
        lemma_ini_steps_none(target, group, live, d);
        assert(strs(live).contains(c[c.len() - 1]@));
    }
}

proof fn lemma_groups_steps_none(target: String, live: Seq<IniGroup>, c: Seq<IniGroupCfg>)
    requires
        forall|i: int| 0 <= i < c.len() ==> group_covers(live, #[trigger] c[i]),
    ensures
        groups_steps(target, live, c) == Seq::<Step>::empty(),
    decreases c.len(),
{
    if c.len() > 0 {
        let d = c.drop_last();
        assert forall|i: int| 0 <= i < d.len() implies group_covers(live, #[trigger] d[i]) by {
            assert(d[i] == c[i]);
        }
        lemma_groups_steps_none(target, live, d);
        let g = c[c.len() - 1];
        assert(group_covers(live, g));
        let lg = live[key_index(live, g.name@)];
        lemma_lun_steps_none(target, Some(g.name), lg.luns@, g.luns@);
        lemma_ini_steps_none(target, g.name, lg.initiators@, g.initiators@);
        assert(group_steps(target, live, g) =~= Seq::<Step>::empty());
    }
}

proof fn lemma_targets_steps_none(d: Driver, c: Seq<TargetCfg>)
    requires
        forall|i: int| 0 <= i < c.len() ==> target_covers(d, #[trigger] c[i]),
    ensures
        targets_steps(d, c) == Seq::<Step>::empty(),
    decreases c.len(),
{
    if c.len() > 0 {
        let p = c.drop_last();
        assert forall|i: int| 0 <= i < p.len() implies target_covers(d, #[trigger] p[i]) by {
            assert(p[i] == c[i]);
        }
        lemma_targets_steps_none(d, p);
        let tc = c[c.len() - 1];
        assert(target_covers(d, tc));
        let lt = d.targets@[key_index(d.targets@, tc.name@)];
        lemma_lun_steps_none(tc.name, None, lt.luns@, tc.luns@);
        lemma_groups_steps_none(tc.name, lt.ini_groups@, tc.groups@);
        assert(target_steps(d, tc) =~= Seq::<Step>::empty());
    }
}

proof fn lemma_drivers_steps_none(d: Driver, c: Seq<DriverCfg>)
    requires
        forall|i: int| 0 <= i < c.len() ==> driver_covers(d, #[trigger] c[i]),
    ensures
        drivers_steps(d, c) == Seq::<Step>::empty(),
    decreases c.len(),
{
    if c.len() > 0 {
        let p = c.drop_last();
        assert forall|i: int| 0 <= i < p.len() implies driver_covers(d, #[trigger] p[i]) by {
            assert(p[i] == c[i]);
        }
        lemma_drivers_steps_none(d, p);
        let dc = c[c.len() - 1];
        assert(driver_covers(d, dc));
        lemma_targets_steps_none(d, dc.targets@);
        assert(driver_steps(d, dc) =~= Seq::<Step>::empty());
    }
}

proof fn lemma_device_steps_none(h: Handler, hc: HanderCfg, c: Seq<crate::config::DeviceCfg>)
    requires
        forall|i: int| 0 <= i < c.len() ==> holds_key(h.devices@, #[trigger] c[i].name@),
    ensures
        device_steps(h, hc, c) == Seq::<Step>::empty(),
    decreases c.len(),
{
    if c.len() > 0 {
        let p = c.drop_last();
        assert forall|i: int| 0 <= i < p.len() implies holds_key(h.devices@, #[trigger] p[i].name@) by {
            assert(p[i] == c[i]);
        }
        lemma_device_steps_none(h, hc, p);
        assert(holds_key(h.devices@, c[c.len() - 1].name@));
    }
}

proof fn lemma_handlers_steps_none(live: Seq<Handler>, c: Seq<HanderCfg>)
    requires
        forall|i: int| 0 <= i < c.len() ==> handler_covers(live, #[trigger] c[i]),
    ensures
        handlers_steps(live, c) == Seq::<Step>::empty(),
        handlers_known(live, c),
    decreases c.len(),
{
    if c.len() > 0 {
        let p = c.drop_last();
        assert forall|i: int| 0 <= i < p.len() implies handler_covers(live, #[trigger] p[i]) by {
            assert(p[i] == c[i]);
        }
        lemma_handlers_steps_none(live, p);
        let hc = c[c.len() - 1];
        assert(handler_covers(live, hc));
        lemma_device_steps_none(live[key_index(live, hc.name@)], hc, hc.devices@);
        assert forall|i: int| 0 <= i < c.len() implies holds_key(live, #[trigger] c[i].name@) by {
            assert(handler_covers(live, c[i]));
        }
    }
}

/// Applying a configuration that the live tree already holds takes no step:
/// every handler it names is known, and the plan is empty, so no write is made.
pub proof fn law_covered_config_is_noop(s: Scst, cfg: Config)
    requires
        covers(s, cfg),
    ensures
        handlers_known(s.handlers@, cfg.handlers@),
        plan(s, cfg) == Seq::<Step>::empty(),
{
    lemma_handlers_steps_none(s.handlers@, cfg.handlers@);
    lemma_drivers_steps_none(s.iscsi_driver, cfg.drivers@);
    assert(plan(s, cfg) =~= Seq::<Step>::empty());
}

proof fn lemma_unique_index<T: Keyed>(v: Seq<T>, i: int)
    requires
        unique_keys(v),
        0 <= i < v.len(),
    ensures
        holds_key(v, v[i].key_spec()),
        key_index(v, v[i].key_spec()) == i,
{
    assert(crate::mgmt::first_of(v, v[i].key_spec(), i));
    let c = key_index(v, v[i].key_spec());
    assert(crate::mgmt::first_of(v, v[i].key_spec(), c));
}

proof fn lemma_own_luns_cover(live: Seq<Lun>, c: Seq<LunCfg>)
    requires
        crate::config::luns_cfg_of(c, live),
    ensures
        luns_cover(live, c),
{
    assert forall|i: int| 0 <= i < c.len() implies holds_key(live, lun_key(#[trigger] c[i].id)) by {
        assert(crate::config::lun_cfg_of(c[i], live[i]));
        assert(live[i].key_spec() == lun_key(c[i].id));
    }
}

proof fn lemma_own_target_covers(d: Driver, k: int, tc: TargetCfg)
    requires
        d.wf(),
        0 <= k < d.targets@.len(),
        crate::config::target_cfg_of(tc, d.targets@[k]),
    ensures
        target_covers(d, tc),
{
    let lt = d.targets@[k];
    lemma_unique_index(d.targets@, k);
    assert(lt.key_spec() == tc.name@);
    assert(lt.wf());
    lemma_own_luns_cover(lt.luns@, tc.luns@);
    assert forall|m: int| 0 <= m < tc.groups@.len() implies group_covers(
        lt.ini_groups@,
        #[trigger] tc.groups@[m],
    ) by {
        let g = tc.groups@[m];
        let lg = lt.ini_groups@[m];
        assert(crate::config::group_cfg_of(g, lg));
        lemma_unique_index(lt.ini_groups@, m);
        assert(lg.key_spec() == g.name@);
        lemma_own_luns_cover(lg.luns@, g.luns@);
        assert forall|j: int| 0 <= j < g.initiators@.len() implies strs(lg.initiators@).contains(
            (#[trigger] g.initiators@[j])@,
        ) by {
            assert(strs(g.initiators@)[j] == g.initiators@[j]@);
            assert(strs(lg.initiators@)[j] == g.initiators@[j]@);
        }
    }
}

/// Applying the configuration that describes the live tree takes no step:
/// what `to_cfg` reads from a well-formed tree is already in place.
pub proof fn law_own_config_is_noop(s: Scst, cfg: Config)
    requires
        s.wf(),
        cfg.handlers@.len() == s.handlers@.len(),
        forall|i: int|
            0 <= i < s.handlers@.len() ==> crate::config::handler_cfg_of(
                #[trigger] cfg.handlers@[i],
                s.handlers@[i],
            ),
        forall|i: int|
            0 <= i < cfg.drivers@.len() ==> crate::config::driver_cfg_of(
                #[trigger] cfg.drivers@[i],
                s.iscsi_driver,
            ),
    ensures
        handlers_known(s.handlers@, cfg.handlers@),
        plan(s, cfg) == Seq::<Step>::empty(),
{
    assert forall|i: int| 0 <= i < cfg.handlers@.len() implies handler_covers(
        s.handlers@,
        #[trigger] cfg.handlers@[i],
    ) by {
        let hc = cfg.handlers@[i];
        let h = s.handlers@[i];
        assert(crate::config::handler_cfg_of(hc, h));
        lemma_unique_index(s.handlers@, i);
        assert(h.key_spec() == hc.name@);
        assert forall|j: int| 0 <= j < hc.devices@.len() implies holds_key(
            h.devices@,
            #[trigger] hc.devices@[j].name@,
        ) by {
            assert(crate::config::device_cfg_of(hc.devices@[j], h.devices@[j]));
            assert(h.devices@[j].key_spec() == hc.devices@[j].name@);
        }
    }
    assert forall|i: int| 0 <= i < cfg.drivers@.len() implies driver_covers(
        s.iscsi_driver,
        #[trigger] cfg.drivers@[i],
    ) by {
        let dc = cfg.drivers@[i];
        let d = s.iscsi_driver;
        assert(crate::config::driver_cfg_of(dc, d));
        assert forall|k: int| 0 <= k < dc.targets@.len() implies target_covers(
            d,
            #[trigger] dc.targets@[k],
        ) by {
            assert(crate::config::target_cfg_of(dc.targets@[k], d.targets@[k]));
            lemma_own_target_covers(d, k, dc.targets@[k]);
        }
    }
    law_covered_config_is_noop(s, cfg);
}

} // verus!
