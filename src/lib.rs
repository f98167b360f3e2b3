//! A client for the SCSI target subsystem's control tree: the live tree of
//! handlers, devices, drivers, targets, LUNs and initiator groups as plain
//! data, the control writes that change it, and the plan that brings it to a
//! declarative configuration.
pub mod config;
pub mod copy_manager;
pub mod device;
pub mod error;
pub mod handler;
pub mod mgmt;
pub mod options;
pub mod scst_tgt;
pub mod stat;
pub mod target;
pub mod text;

pub use config::{Config, DeviceCfg, DriverCfg, HanderCfg, IniGroupCfg, LunCfg, TargetCfg};
pub use copy_manager::CopyManager;
pub use device::Device;
pub use error::ScstError;
pub use handler::Handler;
pub use mgmt::ControlWrite;
pub use options::{cmd_with_options, Options};
pub use scst_tgt::{Scst, Step};
pub use stat::{read_stat, IOStat, Session, SessionIP};
pub use target::{Driver, IniGroup, Lun, Target};
pub use text::first_line;
