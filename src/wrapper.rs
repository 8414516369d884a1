//! The state handed to the renderer of a Python wrapper module.
use vstd::prelude::*;

use crate::types::Type;

verus! {

/// A parsed and validated component interface: the types it declares, in
/// declaration order.
pub struct ComponentInterface {
    pub types: Vec<Type>,
}

impl ComponentInterface {
    pub fn new(types: Vec<Type>) -> (r: ComponentInterface)
        ensures
            r.types@ == types@,
    {
        ComponentInterface { types }
    }
}

/// Options of the generated Python that do not affect the component itself.
/// There are none yet.
#[derive(PartialEq, Eq, Structural, Clone, Copy, Debug)]
pub struct Config {}

impl Config {
    /// The configuration for a component interface.
    pub fn from(_ci: &ComponentInterface) -> (r: Config)
        ensures
            r == (Config {}),
    {
        Config {}
    }
}

/// What the renderer of a wrapper module reads: its configuration and the
/// interface it wraps.
pub struct PythonWrapper<'a> {
    pub config: Config,
    pub ci: &'a ComponentInterface,
}

impl<'a> PythonWrapper<'a> {
    pub fn new(config: Config, ci: &'a ComponentInterface) -> (r: PythonWrapper<'a>)
        ensures
            r.config == config,
            r.ci == ci,
    {
        PythonWrapper { config, ci }
    }
}

} // verus!
