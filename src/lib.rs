//! Host-side runtime logic for dispatching synthesized events into a
//! sandboxed guest: handler-name transforms, the registration table,
//! the dispatch plan and the marshaling of string arguments into guest
//! linear memory.
pub mod naming;
pub mod dispatch;
pub mod marshal;
