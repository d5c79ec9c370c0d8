//! Setting the filter mode by name.

use crate::error::CommandError;
use crate::process_list::{mode_named, ListMode, OptionsView};
use crate::store::{LachesStore, StoreView};
use vstd::prelude::*;
use vstd::string::*;

verus! {

/// The store with the filter mode `mode`.
pub open spec fn store_with_mode(store: StoreView, mode: ListMode) -> StoreView {
    StoreView {
        process_list_options: OptionsView { mode, ..store.process_list_options },
        ..store
    }
}

/// Sets the filter mode to the one that `mode` names. A name that names no
/// mode is an error and leaves the store as it is.
pub fn set_mode(mode: &str, laches_store: &mut LachesStore) -> (r: Result<(), CommandError>)
    ensures
        match mode_named(mode@) {
            Some(variant) => r is Ok && final(laches_store)@ == store_with_mode(
                old(laches_store)@,
                variant,
            ),
            None => (r matches Err(CommandError::UnknownMode { mode: name }) && name@ == mode@)
                && final(laches_store)@ == old(laches_store)@,
        },
{
    match ListMode::parse(mode) {
        Ok(variant) => {
            laches_store.process_list_options.mode = variant;
            Ok(())
        },
        Err(_) => Err(CommandError::UnknownMode { mode: String::from_str(mode) }),
    }
}

} // verus!
