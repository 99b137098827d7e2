//! The masks of the two cascaded 8259 interrupt controllers and the
//! command sequence that remaps and masks them.
use vstd::prelude::*;
use crate::interrupt::IrqId;

verus! {

pub const MASTER_COMMAND: u16 = 0x20;

pub const MASTER_DATA: u16 = 0x21;

pub const SLAVE_COMMAND: u16 = 0xA0;

pub const SLAVE_DATA: u16 = 0xA1;

/// The primary controller's line that the secondary one is wired to.
pub const CASCADE_LINE: u8 = 2;

/// Masks of the two controllers; a set bit masks its line.
pub struct Pic {
    mmask: u8,
    smask: u8,
}

/// `mask` with bit `line` cleared.
pub open spec fn unmasked(mask: u8, line: u8) -> u8 {
    mask & !(1u8 << line)
}

/// One write to an I/O port: the port, then the byte.
pub type PortWrite = (u16, u8);

impl Pic {
    /// First vector of the primary controller's lines after remapping.
    pub const VEC_OFFSET: usize = 0x20;

    pub closed spec fn master_mask_spec(&self) -> u8 {
        self.mmask
    }

    pub closed spec fn slave_mask_spec(&self) -> u8 {
        self.smask
    }

    /// Every line masked but the cascade line of the primary controller.
    pub fn new() -> (r: Self)
        ensures
            r.master_mask_spec() == 0xFB,
            r.slave_mask_spec() == 0xFF,
    {
        let mmask: u8 = !(1u8 << 2u8);
        assert(mmask == 0xFB) by (bit_vector)
            requires
                mmask == !(1u8 << 2u8),
        ;
        Pic { mmask, smask: 0xFF }
    }

    pub fn master_mask(&self) -> (r: u8)
        ensures
            r == self.master_mask_spec(),
    {
        self.mmask
    }

    pub fn slave_mask(&self) -> (r: u8)
        ensures
            r == self.slave_mask_spec(),
    {
        self.smask
    }

    /// Unmasks a line. The cascade line of the primary controller is never
    /// touched, so the secondary controller cannot be cut off.
    pub fn unmask(&mut self, index: IrqId)
        requires
            match index {
                IrqId::Pic1(o) => o < 8,
                IrqId::Pic2(o) => o < 8,
            },
        ensures
            match index {
                IrqId::Pic1(o) => {
                    &&& final(self).master_mask_spec() == if o != CASCADE_LINE {
                        unmasked(old(self).master_mask_spec(), o)
                    } else {
                        old(self).master_mask_spec()
                    }
                    &&& final(self).slave_mask_spec() == old(self).slave_mask_spec()
                },
                IrqId::Pic2(o) => {
                    &&& final(self).master_mask_spec() == old(self).master_mask_spec()
                    &&& final(self).slave_mask_spec() == unmasked(old(self).slave_mask_spec(), o)
                },
            },
    {
        match index {
            IrqId::Pic1(offset) => {
                if offset != CASCADE_LINE {
                    self.mmask = self.mmask & !(1u8 << offset);
                }
            },
            IrqId::Pic2(offset) => {
                self.smask = self.smask & !(1u8 << offset);
            },
        }
    }

    /// The port writes that initialise both controllers, move their
    /// vectors to `VEC_OFFSET` and `VEC_OFFSET + 8`, wire the cascade, set
    /// 8086 mode and load the current masks.
    pub fn remap_commands(&self) -> (r: Vec<PortWrite>)
        ensures
            r@ == seq![
                (MASTER_COMMAND, 0x11u8),
                (SLAVE_COMMAND, 0x11u8),
                (MASTER_DATA, 0x20u8),
                (SLAVE_DATA, 0x28u8),
                (MASTER_DATA, 4u8),
                (SLAVE_DATA, 2u8),
                (MASTER_DATA, 1u8),
                (SLAVE_DATA, 1u8),
                (MASTER_DATA, self.master_mask_spec()),
                (SLAVE_DATA, self.slave_mask_spec()),
            ],
    {
        let init: u8 = 0x10;
        let icw4: u8 = 0x01;
        let ic8086: u8 = 0x01;
        let master_offset: u8 = 0x20;
        let slave_offset: u8 = 0x28;
        let mut r: Vec<PortWrite> = Vec::new();
        r.push((MASTER_COMMAND, init | icw4));
        r.push((SLAVE_COMMAND, init | icw4));
        r.push((MASTER_DATA, master_offset));
        r.push((SLAVE_DATA, slave_offset));
        r.push((MASTER_DATA, 4));
        r.push((SLAVE_DATA, 2));
        r.push((MASTER_DATA, ic8086));
        r.push((SLAVE_DATA, ic8086));
        r.push((MASTER_DATA, self.mmask));
        r.push((SLAVE_DATA, self.smask));
        assert(init | icw4 == 0x11u8) by (bit_vector)
            requires
                init == 0x10u8,
                icw4 == 0x01u8,
        ;
        assert(r@ =~= seq![
            (MASTER_COMMAND, 0x11u8),
            (SLAVE_COMMAND, 0x11u8),
            (MASTER_DATA, 0x20u8),
            (SLAVE_DATA, 0x28u8),
            (MASTER_DATA, 4u8),
            (SLAVE_DATA, 2u8),
            (MASTER_DATA, 1u8),
            (SLAVE_DATA, 1u8),
            (MASTER_DATA, self.mmask),
            (SLAVE_DATA, self.smask),
        ]);
        r
    }
}

/// Command that acknowledges an interrupt.
pub const END_OF_INTERRUPT: u8 = 0x20;

/// The writes that acknowledge the interrupt of vector `vector`: the
/// secondary controller first when the line is one of its own, then the
/// primary.
pub fn end_of_interrupt(vector: u8) -> (r: Vec<PortWrite>)
    ensures
        vector >= 8 + Pic::VEC_OFFSET ==> r@ == seq![
            (SLAVE_COMMAND, END_OF_INTERRUPT),
            (MASTER_COMMAND, END_OF_INTERRUPT),
        ],
        vector < 8 + Pic::VEC_OFFSET ==> r@ == seq![(MASTER_COMMAND, END_OF_INTERRUPT)],
{
    let mut r: Vec<PortWrite> = Vec::new();
    if vector as usize >= 8 + Pic::VEC_OFFSET {
        r.push((SLAVE_COMMAND, END_OF_INTERRUPT));
    }
    r.push((MASTER_COMMAND, END_OF_INTERRUPT));
    assert(vector >= 8 + Pic::VEC_OFFSET ==> r@ =~= seq![
        (SLAVE_COMMAND, END_OF_INTERRUPT),
        (MASTER_COMMAND, END_OF_INTERRUPT),
    ]);
    assert(vector < 8 + Pic::VEC_OFFSET ==> r@ =~= seq![(MASTER_COMMAND, END_OF_INTERRUPT)]);
    r
}

} // verus!
