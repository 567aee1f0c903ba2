//! Elastic scaling of a small fleet of compute instances behind a private
//! VLAN and a public DNS zone. The library holds the reconciliation logic:
//! choosing the next free VLAN host address from the addresses a tag/region
//! group already uses, claiming or extending the group's sequence of DNS
//! slot records, selecting the group's inventory, and sequencing one
//! scale-up or scale-down operation as a state machine whose caller performs
//! the provider calls.

pub mod address;
pub mod dns;
pub mod fleet;
pub mod keys;
pub mod provision;
pub mod regions;
pub mod scale;
pub mod text;
pub mod types;
