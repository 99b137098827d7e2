//! Interrupt handlers: what runs for a vector, and which vector a handler
//! is registered under.
use vstd::prelude::*;

verus! {

/// First vector of the remapped interrupt controllers' lines.
pub const PIC_VEC_OFFSET: u8 = 0x20;

/// A line of the primary (`Pic1`) or secondary (`Pic2`) interrupt
/// controller.
#[derive(PartialEq, Eq, Structural, Clone, Copy, Debug)]
pub enum IrqId {
    Pic1(u8),
    Pic2(u8),
}

/// Line number across both controllers: the secondary's lines follow the
/// primary's eight.
pub open spec fn irq_line(id: IrqId) -> int {
    match id {
        IrqId::Pic1(v) => v as int,
        IrqId::Pic2(v) => v + 8,
    }
}

/// The registers the processor pushes when it enters a handler.
#[derive(Clone, Copy, Debug)]
pub struct InterruptFrame {
    pub ip: u32,
    pub cs: u32,
    pub flags: u32,
    pub sp: u32,
    pub ss: u32,
}

/// Marker for a section run with interrupts disabled.
pub struct InterruptGuard;

/// Classes of processor exception.
#[derive(PartialEq, Eq, Structural, Clone, Copy, Debug)]
pub enum ExceptionType {
    Fault,
    Trap,
    Abort,
}

/// A handler for a controller line.
pub struct PicHandler<F> {
    pub irq_id: IrqId,
    pub func: F,
}

impl<F: Fn()> PicHandler<F> {
    pub fn new(irq_id: IrqId, func: F) -> (r: Self)
        ensures
            r.irq_id == irq_id,
            r.func == func,
    {
        PicHandler { irq_id, func }
    }

    /// The handler's line number across both controllers.
    pub fn vec_offset(&self) -> (r: u8)
        requires
            irq_line(self.irq_id) < 256,
        ensures
            r == irq_line(self.irq_id),
    {
        match self.irq_id {
            IrqId::Pic1(val) => val,
            IrqId::Pic2(val) => val + 8,
        }
    }
}

/// A handler for one of the processor's exception vectors.
pub struct ExceptionHandler<F> {
    pub ty: ExceptionType,
    pub error_code: bool,
    pub func: F,
    pub vec_offset: u8,
}

impl<F: Fn()> ExceptionHandler<F> {
    /// A handler for an exception that pushes an error code.
    pub fn with_error_code(vec_offset: u8, ty: ExceptionType, func: F) -> (r: Self)
        requires
            vec_offset < 32,
        ensures
            r.error_code,
            r.ty == ty,
            r.vec_offset == vec_offset,
            r.func == func,
    {
        ExceptionHandler { error_code: true, ty, vec_offset, func }
    }

    /// A handler for an exception that pushes no error code.
    pub fn without_error_code(vec_offset: u8, ty: ExceptionType, func: F) -> (r: Self)
        requires
            vec_offset < 32,
        ensures
            !r.error_code,
            r.ty == ty,
            r.vec_offset == vec_offset,
            r.func == func,
    {
        ExceptionHandler { error_code: false, ty, vec_offset, func }
    }
}

/// What runs for one vector.
pub enum InterruptHandler<F> {
    Pic(PicHandler<F>),
    Exception(ExceptionHandler<F>),
}

/// The vector a handler serves: an exception's own vector, or a line's
/// number after the controllers' remapped offset.
pub open spec fn handler_vector<F>(h: InterruptHandler<F>) -> int {
    match h {
        InterruptHandler::Pic(p) => irq_line(p.irq_id) + PIC_VEC_OFFSET,
        InterruptHandler::Exception(e) => e.vec_offset as int,
    }
}

impl<F: Fn()> InterruptHandler<F> {
    /// The vector under which the handler is registered.
    pub fn vector(&self) -> (r: u8)
        requires
            handler_vector(*self) < 256,
        ensures
            r == handler_vector(*self),
    {
        match self {
            InterruptHandler::Exception(exc) => exc.vec_offset,
            InterruptHandler::Pic(pic) => pic.vec_offset() + PIC_VEC_OFFSET,
        }
    }

    /// Runs the handler's function.
    pub fn run(&self)
        requires
            match *self {
                InterruptHandler::Pic(p) => p.func.requires(()),
                InterruptHandler::Exception(e) => e.func.requires(()),
            },
    {
        match self {
            InterruptHandler::Pic(pic) => (pic.func)(),
            InterruptHandler::Exception(exc) => (exc.func)(),
        }
    }
}

/// The vector a handler is registered under, or `None` when the line's
/// vector would lie beyond the table.
pub fn handler_vector_of<F: Fn()>(h: &InterruptHandler<F>) -> (r: Option<u8>)
    ensures
        r == if handler_vector(*h) < 256 {
            Some(handler_vector(*h) as u8)
        } else {
            None::<u8>
        },
{
    let v: u16 = match h {
        InterruptHandler::Exception(exc) => exc.vec_offset as u16,
        InterruptHandler::Pic(pic) => match pic.irq_id {
            IrqId::Pic1(val) => val as u16 + PIC_VEC_OFFSET as u16,
            IrqId::Pic2(val) => val as u16 + 8 + PIC_VEC_OFFSET as u16,
        },
    };
    if v < 256 {
        Some(v as u8)
    } else {
        None
    }
}

} // verus!
