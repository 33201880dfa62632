//! Laws on the settings of a stream, where some are set or none.

use crate::evolution::defined_by;
use crate::settings::{defined_in, settings_or_default, StreamSettingsView};
use vstd::prelude::*;

verus! {

/// Whether the settings name any column.
pub open spec fn sets_columns(setting: Option<StreamSettingsView>) -> bool {
    setting matches Some(settings) && settings.defined_schema_fields matches Some(names)
        && names.len() > 0
}

/// Whether the settings name that column.
pub open spec fn sets_column(setting: Option<StreamSettingsView>, name: Seq<char>) -> bool {
    setting matches Some(settings) && settings.defined_schema_fields matches Some(names)
        && names.contains(name)
}

/// Whether the settings ask for the originals of records.
pub open spec fn stores_originals(setting: Option<StreamSettingsView>) -> bool {
    setting matches Some(settings) && settings.store_original_data
}

/// The columns defined are those that the settings name, and there are none where nothing is set.
/// What is set is not changed by defaults, and by default nothing is asked for.
pub proof fn settings_define_what_they_name(setting: Option<StreamSettingsView>)
    ensures
        defined_by(setting).len() > 0 <==> sets_columns(setting),
        forall|name: Seq<char>| #[trigger]
            defined_by(setting).contains(name) <==> sets_column(setting, name),
        defined_in(settings_or_default(setting)) == defined_by(setting),
        settings_or_default(setting).store_original_data == stores_originals(setting),
        setting matches Some(settings) ==> settings_or_default(setting) == settings,
        setting matches Some(settings) ==> (settings.defined_schema_fields matches Some(names)
            ==> defined_by(setting) == names),
        setting is None ==> settings_or_default(setting).defined_schema_fields is None
            && settings_or_default(setting).other.len() == 0,
{
}

} // verus!
