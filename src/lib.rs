//! A paged browser and editor over a linear byte store such as physical
//! memory: a cursor at a chosen granularity, a cached page of cells, jump
//! expressions and write literals typed at a prompt, and the sysfs naming of
//! PCI devices.

pub mod cell;
pub mod literal;
pub mod matrix;
pub mod page;
pub mod pci;
