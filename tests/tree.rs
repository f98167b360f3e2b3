use scst::{
    read_stat, Config, CopyManager, Device, DeviceCfg, Driver, DriverCfg, HanderCfg, Handler,
    IniGroup, IniGroupCfg, Lun, LunCfg, Options, Scst, ScstError, Session, SessionIP, Step,
    Target, TargetCfg,
};

fn lun(id: u64, device: &str) -> Lun {
    Lun {
        root: format!("/t/luns/{}", id),
        id,
        device: device.to_string(),
        read_only: 0,
    }
}

fn empty_target(name: &str) -> Target {
    Target {
        root: format!("/sys/kernel/scst_tgt/targets/iscsi/{}", name),
        tid: 1,
        rel_tgt_id: 0,
        name: name.to_string(),
        enabled: 0,
        luns: vec![],
        ini_groups: vec![],
    }
}

fn empty_tree() -> Scst {
    Scst {
        root: "/sys/kernel/scst_tgt".to_string(),
        version: "3.7.0".to_string(),
        handlers: vec![Handler {
            root: "/sys/kernel/scst_tgt/handlers/vdisk_blockio".to_string(),
            name: "vdisk_blockio".to_string(),
            handler_type: "0".to_string(),
            devices: vec![],
        }],
        iscsi_driver: Driver {
            root: "/sys/kernel/scst_tgt/targets/iscsi".to_string(),
            name: "iscsi".to_string(),
            enabled: 0,
            open_state: "open".to_string(),
            version: "3.7.0".to_string(),
            targets: vec![],
        },
        copy_driver: CopyManager {
            root: "/sys/kernel/scst_tgt/targets/copy_manager".to_string(),
            name: "copy_manager".to_string(),
            tgt: empty_target("copy_manager_tgt"),
        },
    }
}

fn sample_config(enabled: i8) -> Config {
    Config {
        version: "3.7.0".to_string(),
        handlers: vec![HanderCfg {
            name: "vdisk_blockio".to_string(),
            devices: vec![DeviceCfg {
                name: "vol".to_string(),
                filename: "/dev/zvol/tank/vol".to_string(),
                size: 10737418240,
            }],
        }],
        drivers: vec![DriverCfg {
            name: "iscsi".to_string(),
            enabled,
            targets: vec![TargetCfg {
                name: "iqn.2018-11.com.vine:vol".to_string(),
                enabled,
                rel_tgt_id: 0,
                luns: vec![LunCfg { id: 0, device: "vol".to_string() }],
                groups: vec![IniGroupCfg {
                    name: "vol".to_string(),
                    luns: vec![],
                    initiators: vec!["iqn.1988-12.com.oracle:d4ebaa45254b".to_string()],
                }],
            }],
        }],
    }
}

fn full_tree() -> Scst {
    let mut s = empty_tree();
    s.iscsi_driver.enabled = 1;
    s.handlers[0].devices.push(Device {
        root: "/sys/kernel/scst_tgt/handlers/vdisk_blockio/vol".to_string(),
        name: "vol".to_string(),
        handler: "vdisk_blockio".to_string(),
        filename: "/dev/zvol/tank/vol".to_string(),
        active: 1,
        read_only: 0,
        size: 10737418240,
        blocksize: 512,
    });
    let mut t = empty_target("iqn.2018-11.com.vine:vol");
    t.enabled = 1;
    t.luns.push(lun(0, "vol"));
    t.ini_groups.push(IniGroup {
        root: "/sys/kernel/scst_tgt/targets/iscsi/iqn.2018-11.com.vine:vol/ini_groups/vol"
            .to_string(),
        name: "vol".to_string(),
        luns: vec![],
        initiators: vec!["iqn.1988-12.com.oracle:d4ebaa45254b".to_string()],
    });
    s.iscsi_driver.targets.push(t);
    s
}

#[test]
fn new_entities_are_added_parent_first() {
    let s = empty_tree();
    let steps = s.from_cfg(&sample_config(0)).unwrap();
    let target = "iqn.2018-11.com.vine:vol".to_string();
    assert_eq!(
        steps,
        vec![
            Step::AddDevice {
                handler: "vdisk_blockio".to_string(),
                name: "vol".to_string(),
                filename: "/dev/zvol/tank/vol".to_string(),
            },
            Step::AddTarget { target: target.clone() },
            Step::AddLun { target: target.clone(), device: "vol".to_string(), id: 0 },
            Step::CreateGroup { target: target.clone(), group: "vol".to_string() },
            Step::AddInitiator {
                target: target.clone(),
                group: "vol".to_string(),
                initiator: "iqn.1988-12.com.oracle:d4ebaa45254b".to_string(),
            },
        ]
    );
}

#[test]
fn enabling_comes_around_the_target() {
    let s = empty_tree();
    let steps = s.from_cfg(&sample_config(1)).unwrap();
    assert_eq!(steps.len(), 7);
    assert_eq!(steps[1], Step::EnableDriver);
    assert_eq!(
        steps[6],
        Step::EnableTarget { target: "iqn.2018-11.com.vine:vol".to_string() }
    );
}

#[test]
fn a_config_that_matches_the_tree_takes_no_step() {
    let s = full_tree();
    assert_eq!(s.from_cfg(&sample_config(1)).unwrap(), vec![]);
    assert_eq!(s.from_cfg(&sample_config(0)).unwrap(), vec![]);
    assert_eq!(s.from_cfg(&s.to_cfg()).unwrap(), vec![]);
}

#[test]
fn an_unknown_handler_fails_the_plan() {
    let s = empty_tree();
    let mut cfg = sample_config(0);
    cfg.handlers[0].name = "vdisk_fileio".to_string();
    assert_eq!(
        s.from_cfg(&cfg),
        Err(ScstError::NoHandler("vdisk_fileio".to_string()))
    );
}

#[test]
fn repeated_luns_and_initiators_are_added_once() {
    let s = empty_tree();
    let mut cfg = sample_config(0);
    cfg.drivers[0].targets[0].luns.push(LunCfg { id: 0, device: "other".to_string() });
    let ini = cfg.drivers[0].targets[0].groups[0].initiators[0].clone();
    cfg.drivers[0].targets[0].groups[0].initiators.push(ini);
    assert_eq!(s.from_cfg(&cfg).unwrap().len(), 5);
}

#[test]
fn steps_become_writes() {
    let s = empty_tree();
    let steps = s.from_cfg(&sample_config(0)).unwrap();
    let w = s.step_write(&steps[0]).unwrap();
    assert_eq!(w.path, "/sys/kernel/scst_tgt/handlers/vdisk_blockio/mgmt");
    assert_eq!(w.text, "add_device vol filename=/dev/zvol/tank/vol");
    let w = s.step_write(&steps[1]).unwrap();
    assert_eq!(w.path, "/sys/kernel/scst_tgt/targets/iscsi/mgmt");
    assert_eq!(w.text, "add_target iqn.2018-11.com.vine:vol");
    assert_eq!(
        s.step_write(&steps[2]),
        Err(ScstError::NoTarget("iqn.2018-11.com.vine:vol".to_string()))
    );
    let w = s.step_write(&Step::EnableDriver).unwrap();
    assert_eq!(w.path, "/sys/kernel/scst_tgt/targets/iscsi/enabled");
    assert_eq!(w.text, "1");
}

#[test]
fn adding_an_existing_device_fails_without_a_write() {
    let s = full_tree();
    let h = &s.handlers[0];
    assert_eq!(
        h.add_device("vol", "/dev/sdb", &Options::new()),
        Err(ScstError::DeviceExists("vol".to_string()))
    );
    assert_eq!(
        s.add_device("nope", "vol", "/dev/sdb", &Options::new()),
        Err(ScstError::NoHandler("nope".to_string()))
    );
}

#[test]
fn add_device_builds_its_command() {
    let s = empty_tree();
    let mut opts = Options::new();
    opts.insert("read_only", "1");
    let w = s.add_device("vdisk_blockio", "disk1", "/dev/sdb", &opts).unwrap();
    assert_eq!(w.path, "/sys/kernel/scst_tgt/handlers/vdisk_blockio/mgmt");
    assert_eq!(w.text, "add_device disk1 filename=/dev/sdb read_only=1");
    assert_eq!(
        w.failure("refused".to_string()),
        ScstError::DeviceAddFail { name: "disk1".to_string(), e: "refused".to_string() }
    );
    let mut bad = Options::new();
    bad.insert("colour", "red");
    assert_eq!(
        s.handlers[0].add_device("disk1", "/dev/sdb", &bad),
        Err(ScstError::InvalidParams(vec!["colour".to_string()]))
    );
}

#[test]
fn del_device_needs_the_device() {
    let s = full_tree();
    let w = s.del_device("vdisk_blockio", "vol").unwrap();
    assert_eq!(w.text, "del_device vol");
    assert_eq!(w.failure("gone".to_string()), ScstError::Io("gone".to_string()));
    assert_eq!(
        s.handlers[0].del_device("disk9"),
        Err(ScstError::NoDevice("disk9".to_string()))
    );
}

#[test]
fn lun_keys_are_prefix_and_number() {
    assert_eq!(lun(0, "vol").name(), "lun0");
    assert_eq!(lun(42, "vol").name(), "lun42");
    assert_eq!(lun(u64::MAX, "vol").name(), "lun18446744073709551615");
}

#[test]
fn target_lun_operations() {
    let s = full_tree();
    let t = &s.iscsi_driver.targets[0];
    assert_eq!(
        t.add_lun("vol", 0, &Options::new()),
        Err(ScstError::TargetLunExists("0".to_string()))
    );
    let w = t.add_lun("vol2", 1, &Options::new()).unwrap();
    assert_eq!(
        w.path,
        "/sys/kernel/scst_tgt/targets/iscsi/iqn.2018-11.com.vine:vol/luns/mgmt"
    );
    assert_eq!(w.text, "add vol2 1");
    assert_eq!(
        w.failure("x".to_string()),
        ScstError::TargetAddLunFail("1".to_string())
    );
    assert_eq!(t.set_lun("vol3", 0, &Options::new()).unwrap().text, "replace vol3 0");
    assert_eq!(
        t.set_lun("vol3", 5, &Options::new()),
        Err(ScstError::TargetNoLun("5".to_string()))
    );
    assert_eq!(t.del_lun(0).unwrap().text, "del 0");
    assert_eq!(t.del_lun(7), Err(ScstError::TargetNoLun("7".to_string())));
    assert_eq!(t.get_lun("lun0").unwrap().device(), "vol");
    assert_eq!(t.get_lun("lun9"), Err(ScstError::TargetNoLun("lun9".to_string())));
}

#[test]
fn group_operations() {
    let s = full_tree();
    let t = &s.iscsi_driver.targets[0];
    assert_eq!(
        t.create_ini_group("vol"),
        Err(ScstError::GroupExists("vol".to_string()))
    );
    assert_eq!(t.create_ini_group("g2").unwrap().text, "create g2");
    assert_eq!(t.del_ini_group("g2"), Err(ScstError::NoGroup("g2".to_string())));
    let g = t.get_ini_group("vol").unwrap();
    let ini = "iqn.1988-12.com.oracle:d4ebaa45254b";
    assert_eq!(
        g.add_initiator(ini),
        Err(ScstError::GroupIniExists(ini.to_string()))
    );
    let w = g.add_initiator("iqn.2000-01.org:x").unwrap();
    assert_eq!(w.text, "add iqn.2000-01.org:x");
    assert!(w.path.ends_with("/ini_groups/vol/initiators/mgmt"));
    assert_eq!(g.del_initiator(ini).unwrap().text, format!("del {}", ini));
    assert_eq!(
        g.del_initiator("iqn.x"),
        Err(ScstError::GroupNoIni("iqn.x".to_string()))
    );
    assert_eq!(
        g.move_initiator(ini, "other").unwrap().text,
        format!("move {} other", ini)
    );
    let c = g.clear_initiators();
    assert_eq!(c.text, "clear");
    assert_eq!(c.failure("x".to_string()), ScstError::GroupClearIniFail);
    assert_eq!(g.add_lun("vol", 3, &Options::new()).unwrap().text, "add vol 3");
    assert_eq!(g.del_lun(3), Err(ScstError::GroupNoLun("3".to_string())));
}

#[test]
fn driver_attributes_are_checked() {
    let s = full_tree();
    let d = &s.iscsi_driver;
    let name = "iqn.2018-11.com.vine:vol";
    assert_eq!(
        d.add_target_attribute(name, "IncomingUser", "joe secret").unwrap().text,
        format!("add_target_attribute {} IncomingUser joe secret", name)
    );
    assert_eq!(
        d.del_target_attribute(name, "bogus", "x"),
        Err(ScstError::TargetBadAttrs)
    );
    assert_eq!(
        d.add_target_attribute("iqn.none", "IncomingUser", "x"),
        Err(ScstError::NoTarget("iqn.none".to_string()))
    );
    assert_eq!(d.add_attribute("OutgoingUser", "u p").unwrap().text, "add_attribute OutgoingUser u p");
    assert_eq!(d.del_attribute("allowed_portal", "x"), Err(ScstError::TargetBadAttrs));
    assert_eq!(
        d.add_target(name, &Options::new()),
        Err(ScstError::TargetExists(name.to_string()))
    );
    assert_eq!(d.del_target(name).unwrap().text, format!("del_target {}", name));
    assert_eq!(d.disable().text, "0");
}

#[test]
fn loading_parses_first_lines() {
    let d = Device::load(
        "/h/vdisk_blockio/disk1",
        "../../handlers/vdisk_blockio",
        "/dev/sdb\n",
        "1\n",
        "0\n[key]\n",
        "10737418240\n",
        "512\n",
    )
    .unwrap();
    assert_eq!(d.name(), "disk1");
    assert_eq!(d.handler(), "vdisk_blockio");
    assert_eq!(d.filename(), "/dev/sdb");
    assert!(d.is_active());
    assert!(!d.read_only());
    assert_eq!(d.size(), 10737418240);
    assert_eq!(d.blocksize(), 512);
    assert_eq!(
        Device::load("/h/x/d", "h", "f", "yes", "0", "1", "1"),
        Err(ScstError::BadValue("active".to_string()))
    );
}

#[test]
fn loading_skips_children_that_failed() {
    let h = Handler::load(
        "/h/vdisk_fileio",
        "1\n",
        vec![
            Device::load("/h/vdisk_fileio/a", "h", "f", "1", "0", "1", "512"),
            Device::load("/h/vdisk_fileio/b", "h", "f", "x", "0", "1", "512"),
        ],
    );
    assert_eq!(h.name(), "vdisk_fileio");
    assert_eq!(h.get_type(), "1");
    assert_eq!(h.devices().len(), 1);
    assert_eq!(h.get_device("a").unwrap().name(), "a");

    let t = Target::load(
        "/d/iscsi/iqn.x",
        None,
        "3\n",
        None,
        vec![Lun::load("/d/iscsi/iqn.x/luns/0", "../../dev/vol", "0"), Lun::load("/d/iscsi/iqn.x/luns/zz", "v", "0")],
        vec![],
    )
    .unwrap();
    assert_eq!(t.tid(), 0);
    assert_eq!(t.rel_tgt_id(), 3);
    assert!(t.enabled());
    assert_eq!(t.luns().len(), 1);
    assert_eq!(t.luns()[0].device(), "vol");

    let g = IniGroup::load(
        "/g/vol",
        vec![],
        &vec![
            ("iqn.1988-12.com.oracle:a".to_string(), true),
            ("mgmt".to_string(), true),
            ("iqn.dir".to_string(), false),
        ],
    );
    assert_eq!(g.initiators(), &vec!["iqn.1988-12.com.oracle:a".to_string()]);

    let d = Driver::load("/d/iscsi", "1", "open\n", "3.7\n", vec![Ok(t)]).unwrap();
    assert!(d.enabled());
    assert_eq!(d.get_target("iqn.x").unwrap().rel_tgt_id(), 3);
}

#[test]
fn sessions_and_counters() {
    let ip = SessionIP::load("/s/1/192.168.2.30", "1\n", "192.168.2.30\n", "active\n", "10.0.0.1\n");
    let s = Session::load("/s/1", "7\n", "1234\n", "iqn.a\n", vec![Ok(ip), Err(ScstError::NoSession)]);
    assert_eq!(s.sid(), "7");
    assert_eq!(s.ips().len(), 1);
    assert_eq!(s.ips()[0].ip(), "192.168.2.30");
    let st = read_stat("1", "2", "3", "4", "5", "6", "7", "8", "9\n").unwrap();
    assert_eq!(st.read_unaligned_cmd_count, 9);
    assert_eq!(st.bidi_cmd_count, 1);
    assert!(read_stat("1", "2", "3", "4", "x", "6", "7", "8", "9").is_err());
}

#[test]
fn mount_point_prefers_the_older_layout() {
    assert_eq!(Scst::init(true, true).unwrap(), "/sys/kernel/scst_tgt");
    assert_eq!(Scst::init(false, true).unwrap(), "/sys/devices/scst");
    assert_eq!(Scst::init(false, false), Err(ScstError::NoModule));
}

#[test]
fn to_cfg_describes_the_tree() {
    let s = full_tree();
    let c = s.to_cfg();
    assert_eq!(c.version(), "3.7.0");
    assert_eq!(c.handlers()[0].devices()[0].filename(), "/dev/zvol/tank/vol");
    assert_eq!(c.drivers()[0].targets()[0].groups()[0].initiators().len(), 1);
    assert_eq!(c.drivers()[0].enabled(), 1);
}

#[test]
fn mutable_lookups_change_the_tree_in_place() {
    let mut s = full_tree();
    s.iscsi_mut().get_target_mut("iqn.2018-11.com.vine:vol").unwrap().enabled = 0;
    assert!(!s.iscsi().get_target("iqn.2018-11.com.vine:vol").unwrap().enabled());
    assert_eq!(
        s.iscsi_mut().get_target_mut("iqn.none").err(),
        Some(ScstError::NoTarget("iqn.none".to_string()))
    );
    s.get_handler_mut("vdisk_blockio").unwrap().devices.clear();
    assert_eq!(s.get_handler("vdisk_blockio").unwrap().devices().len(), 0);
    let t = s.iscsi_mut().get_target_mut("iqn.2018-11.com.vine:vol").unwrap();
    t.get_lun_mut("lun0").unwrap().read_only = 1;
    assert!(t.get_lun("lun0").unwrap().read_only());
    let g = t.get_ini_group_mut("vol").unwrap();
    g.initiators.clear();
    assert_eq!(g.get_lun_mut("lun0").err(), Some(ScstError::GroupNoLun("lun0".to_string())));
    assert_eq!(s.from_cfg(&sample_config(0)).unwrap().len(), 2);
}
