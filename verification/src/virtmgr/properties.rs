//! Switches that choose how virtual machines run.
use vstd::prelude::*;

verus! {

/// The system property that selects kvmtool.
pub const KVMTOOL_PROPERTY: &'static str = "persist.avf.kvmtool";

/// The file whose presence selects kvmtool.
pub const KVMTOOL_MARKER: &'static str = "/data/use_kvmtool";

/// The system property that selects realms.
pub const REALM_PROPERTY: &'static str = "persist.avf.realm";

/// The file whose presence selects realms.
pub const REALM_MARKER: &'static str = "/data/use_realm";

/// A switch is on where its property could be read as true, or where its marker file could be
/// found.
pub open spec fn switched_on(property: Option<bool>, marker: Option<bool>) -> bool {
    property == Some(true) || marker == Some(true)
}

/// The value of a property, which is off where it could not be read.
fn property_value(property: Option<bool>) -> (r: bool)
    ensures
        r == (property == Some(true)),
{
    match property {
        Some(on) => on,
        None => false,
    }
}

/// Whether virtual machines run with kvmtool, from the property and the presence of the marker
/// file, each `None` where it could not be read.
pub fn use_kvmtool(property: Option<bool>, marker: Option<bool>) -> (r: bool)
    ensures
        r == switched_on(property, marker),
        r <==> property == Some(true) || marker == Some(true),
{
    if property_value(property) {
        return true;
    }
    match marker {
        Some(found) => found,
        None => false,
    }
}

/// Whether virtual machines run as realms, from the property and the presence of the marker file,
/// each `None` where it could not be read.
pub fn use_realm(property: Option<bool>, marker: Option<bool>) -> (r: bool)
    ensures
        r == switched_on(property, marker),
        r <==> property == Some(true) || marker == Some(true),
{
    if property_value(property) {
        return true;
    }
    match marker {
        Some(found) => found,
        None => false,
    }
}

/// A switch that is set is on whatever the marker is, and a marker that is found turns on every
/// switch; one that is neither set nor found, or of which nothing could be read, is off.
pub proof fn either_switch_turns_on(property: Option<bool>, marker: Option<bool>)
    ensures
        switched_on(Some(true), marker),
        switched_on(property, Some(true)),
        property != Some(true) && marker != Some(true) ==> !switched_on(property, marker),
{
}

} // verus!
