//! The ACPI device tree.

use vstd::prelude::*;

verus! {

/// A node of the ACPI device tree.
pub struct AcpiNode {
    pub name: String,
    pub device_id: u64,
    pub children: Vec<AcpiNode>,
}

/// The ACPI device tree; no table parser is wired in, so there is none.
pub fn parse_acpi_tree() -> (r: Option<AcpiNode>)
    ensures
        r is None,
{
    None
}

} // verus!
