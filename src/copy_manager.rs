use vstd::prelude::*;

use crate::error::ScstError;
use crate::target::Target;
use crate::text::{base_name, base_of};

verus! {

/// The copy-manager driver and its single target.
#[derive(Debug, PartialEq, Eq)]
pub struct CopyManager {
    pub root: String,
    pub name: String,
    pub tgt: Target,
}

impl CopyManager {
    pub fn name(&self) -> (r: &str)
        ensures
            r@ == self.name@,
    {
        self.name.as_str()
    }

    pub fn tgt(&self) -> (r: &Target)
        ensures
            *r == self.tgt,
    {
        &self.tgt
    }

    /// The copy manager of the directory `root`, with the target loaded
    /// from its `copy_manager_tgt` directory; that target must have loaded.
    pub fn load(root: &str, tgt: Result<Target, ScstError>) -> (r: Result<CopyManager, ScstError>)
        ensures
            tgt is Err ==> r is Err && r->Err_0 == tgt->Err_0,
            tgt is Ok ==> r is Ok && r->Ok_0.root@ == root@ && r->Ok_0.name@ == base_of(root@)
                && r->Ok_0.tgt == tgt->Ok_0,
    {
        let tgt = tgt?;
        Ok(CopyManager { root: String::from_str(root), name: base_name(root), tgt })
    }
}

} // verus!
