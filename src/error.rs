use vstd::prelude::*;

verus! {

/// The failures of the library, by kind. Variants that name an entity carry
/// its key; those that wrap a failed write carry the cause as text.
#[derive(Debug, PartialEq, Eq)]
pub enum ScstError {
    NoModule,
    Io(String),
    Unknown(String),
    /// An attribute file whose first line is not a number of the expected type.
    BadValue(String),
    /// Options given for a command that does not accept them, with their keys.
    InvalidParams(Vec<String>),
    BadAttrs,
    AttrStatic(String),
    SetattrFail(String),
    NoHandler(String),
    HandlerBadAttr,
    HandlerAttrStatic(String),
    HandlerSetAttrFail(String),
    NoDevice(String),
    DeviceExists(String),
    DeviceAddFail { name: String, e: String },
    DeviceRemFail(String),
    DeviceBadAttr,
    DeviceAttrStatic(String),
    DeviceSetAttrFail(String),
    NoDriver(String),
    DriverNotVirt,
    DriverAddAttrFail(String),
    DriverRemAttrFail(String),
    DriverBadAttrs,
    DriverAttrStatic(String),
    DriverSetAttrFail(String),
    NoTarget(String),
    TargetExists(String),
    TargetAddFail(String),
    TargetRemFail(String),
    TargetSetAttr(String),
    TargetAddAttrFail(String),
    TargetRemAttrFail(String),
    TargetNoLun(String),
    TargetAddLunFail(String),
    TargetRemLunFail(String),
    TargetLunExists(String),
    TargetBadAttrs,
    TargetBadAttr(String),
    TargetSetAttrFail(String),
    TargetClearLunFail,
    TargetBusy,
    NoGroup(String),
    GroupExists(String),
    GroupAddFail(String),
    GroupRemFail(String),
    GroupNoLun(String),
    GroupLunExists(String),
    GroupAddLunFail(String),
    GroupRemLunFail(String),
    GroupClearLunFail,
    GroupBadAttrs,
    GroupAttrStatic(String),
    GroupSetAttrFail(String),
    GroupNoIni(String),
    GroupIniExists(String),
    GroupAddIniFail(String),
    GroupRemIniFail(String),
    GroupMoveIniFail(String),
    GroupClearIniFail,
    LunDeviceExists(String),
    LunReplaceDevFail(String),
    LunBadAttrs,
    LunAttrStatic(String),
    LunSetAttrFail(String),
    IniBadAttrs,
    IniAttrStatic(String),
    IniSetAttrFail(String),
    NoSession,
    SessionCloseFail,
}

} // verus!
