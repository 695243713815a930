//! Listened D-Bus interfaces: what each listener decides from the events of
//! the interface it watches.

pub mod hostname1;
pub mod udisks2;
