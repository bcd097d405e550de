use vstd::prelude::*;

verus! {

/// The STAC specification version written into items and catalogs.
pub const STAC_VERSION: &'static str = "1.0.0";

/// The default STAC version, as an owned string.
pub fn stac_version() -> (r: String)
    ensures
        r@ == STAC_VERSION@,
{
    String::from_str(STAC_VERSION)
}

/// The `type` field of a STAC catalog.
pub fn catalog() -> (r: String)
    ensures
        r@ == "Catalog"@,
{
    String::from_str("Catalog")
}

} // verus!
