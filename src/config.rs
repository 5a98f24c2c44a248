//! Where the configuration was loaded from, set once per process.
use vstd::prelude::*;
use crate::outside::{once_get, once_new, once_set, once_text};

verus! {

/// A slot for the configuration path: it can be set once, and is fixed to the
/// empty path if read before it was set.
pub struct ConfigPath {
    cell: once_cell::sync::OnceCell<String>,
}

impl View for ConfigPath {
    type V = Option<Seq<char>>;

    closed spec fn view(&self) -> Option<Seq<char>> {
        once_text(self.cell)
    }
}

impl ConfigPath {
    /// A slot that holds no path yet.
    pub fn new() -> (r: ConfigPath)
        ensures
            r@ is None,
    {
        ConfigPath { cell: once_new() }
    }
}

/// Records `conf_path` unless a path was recorded before, which then stays.
pub fn set_config_path(slot: &mut ConfigPath, conf_path: &str)
    ensures
        final(slot)@ == (if old(slot)@ is None { Some(conf_path@) } else { old(slot)@ }),
{
    once_set(&mut slot.cell, conf_path.to_string());
}

/// The recorded path; when none was recorded, the empty path is recorded and
/// returned.
pub fn get_config_path(slot: &mut ConfigPath) -> (r: String)
    ensures
        old(slot)@ is Some ==> final(slot)@ == old(slot)@ && r@ == old(slot)@->0,
        old(slot)@ is None ==> final(slot)@ == Some(Seq::<char>::empty()) && r@
            == Seq::<char>::empty(),
{
    match once_get(&slot.cell) {
        Some(p) => p,
        None => {
            let empty = String::new();
            once_set(&mut slot.cell, empty.clone());
            empty
        },
    }
}

} // verus!
