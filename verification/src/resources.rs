//! The resource catalog: every material kind the colony can store.

use vstd::prelude::*;

verus! {

/// Catalog of resource kinds. Tiered raw materials, intermediate products and
/// food concentrates, each with a fixed storage class and per-unit volume.
#[derive(PartialEq, Eq, Clone, Copy, Debug, Hash, Structural)]
pub enum Resource {
    BioRawT1,
    BioRawT2,
    BioRawT3,
    ScrapT1,
    ScrapT2,
    ScrapT3,
    Concrete,
    IsoConcrente,
    TransparentSlime,
    BlackSlime,
    BrownSlime,
    RedSlime,
    PinkSlime,
    WhiteSlime,
    ComponentT1,
    ComponentT2,
    ComponentT3,
    ReagentT1,
    ReagentT2,
    ReagentT3,
    PolymerT1,
    PolymerT2,
    PolymerT3,
    ConcentratT1,
    ConcentratT2,
    ConcentratT3,
}

} // verus!
