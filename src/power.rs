//! Address translation for the ACPI table parser, which reads physical
//! memory through the kernel's linear mapping of it.
use vstd::prelude::*;

verus! {

/// Maps physical regions for the ACPI parser by adding the offset at which
/// the bootloader mapped all physical memory.
#[derive(Clone, Copy, Debug, PartialEq, Eq, Structural)]
pub struct EtheryalAcpiHandler {
    offset: usize,
}

impl EtheryalAcpiHandler {
    pub closed spec fn spec_offset(&self) -> usize {
        self.offset
    }

    pub fn new(offset: usize) -> (res: Self)
        ensures
            res.spec_offset() == offset,
    {
        Self { offset }
    }

    pub fn offset(&self) -> (res: usize)
        ensures
            res == self.spec_offset(),
    {
        self.offset
    }

    /// The virtual address of `physical_address`; `None` where it would
    /// overflow or be null.
    pub fn virtual_address(&self, physical_address: usize) -> (res: Option<usize>)
        ensures
            res == if physical_address + self.spec_offset() <= usize::MAX && physical_address
                + self.spec_offset() != 0 {
                Some((physical_address + self.spec_offset()) as usize)
            } else {
                None::<usize>
            },
    {
        match physical_address.checked_add(self.offset) {
            Some(0) => None,
            Some(v) => Some(v),
            None => None,
        }
    }
}

} // verus!
