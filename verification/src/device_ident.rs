//! How a device presents itself.

use vstd::prelude::*;

verus! {

/// What an application said of its device.
#[derive(Debug)]
pub struct DeviceIdent {
    pub name: Option<String>,
    pub appearance: Option<u16>,
}

impl DeviceIdent {
    /// The name, if there is one.
    pub open spec fn name_view(&self) -> Option<Seq<char>> {
        match self.name {
            Some(name) => Some(name@),
            None => None,
        }
    }
}

impl Default for DeviceIdent {
    fn default() -> (r: Self)
        ensures
            r.name is None,
            r.appearance is None,
    {
        Self { name: None, appearance: None }
    }
}

} // verus!
