use vstd::prelude::*;

verus! {

/// A value of the Interrupt Master Enable register (REG_IME).
///
/// When bit 0 is clear, all interrupts are masked. When it is 1, interrupts
/// occur if they are not masked out in REG_IE. Only 0 and 1 are allowed.
#[allow(non_camel_case_types)]
pub struct IME(u32);

impl View for IME {
    type V = u32;

    closed spec fn view(&self) -> u32 {
        self.0
    }
}

impl IME {
    #[verifier::type_invariant]
    spec fn is_zero_or_one(self) -> bool {
        self.0 <= 1
    }

    /// Interrupts enabled (1).
    pub fn enable() -> (r: IME)
        ensures
            r@ == 1,
    {
        IME(1)
    }

    /// All interrupts masked (0).
    pub fn disable() -> (r: IME)
        ensures
            r@ == 0,
    {
        IME(0)
    }

    /// Takes a raw register value; only 0 and 1 are values of the register.
    pub fn from_bits(bits: u32) -> (r: Option<IME>)
        ensures
            r is Some <==> bits <= 1,
            r matches Some(ime) ==> ime@ == bits,
    {
        if bits <= 1 {
            Some(IME(bits))
        } else {
            None
        }
    }

    /// The raw register value.
    pub fn bits(&self) -> (r: u32)
        ensures
            r == self@,
            r <= 1,
    {
        proof {
            use_type_invariant(self);
        }
        self.0
    }
}

impl From<IME> for u32 {
    fn from(ime: IME) -> (r: u32) {
        ime.bits()
    }
}

impl vstd::std_specs::convert::FromSpecImpl<IME> for u32 {
    open spec fn obeys_from_spec() -> bool {
        true
    }

    open spec fn from_spec(v: IME) -> u32 {
        v@
    }
}

/// The register after a critical section is entered from `reg`, and the value
/// saved for leaving it: `(saved, register)`.
pub open spec fn entered_critical_section(reg: u32) -> (u32, u32) {
    (reg, 0)
}

/// The register after a critical section that saved `saved` is left.
pub open spec fn left_critical_section(saved: u32) -> u32 {
    saved
}

/// Masks all interrupts, returning the previous value of the register for
/// `leave_critical_section`. `ime` is the register.
pub fn enter_critical_section(ime: &mut IME) -> (old_ime: IME)
    ensures
        (old_ime@, final(ime)@) == entered_critical_section(old(ime)@),
{
    let mut old_ime = IME::disable();
    core::mem::swap(ime, &mut old_ime);
    old_ime
}

/// Restores the register `ime` to the value saved on entering the critical
/// section.
pub fn leave_critical_section(ime: &mut IME, old_ime: IME)
    ensures
        final(ime)@ == left_critical_section(old_ime@),
{
    *ime = old_ime;
}

/// Sets up the interrupt handler and enables interrupts in the register `ime`.
pub fn initialize_interrupts(ime: &mut IME)
    ensures
        final(ime)@ == 1,
{
    initialize_irq_handler();
    *ime = IME::enable();
}

/// The dummy handler is installed statically, so nothing is left to do here.
fn initialize_irq_handler() {
}

/// A critical section restores, on leaving, the register value in force when
/// it was entered; a section nested inside another leaves interrupts masked
/// until the outer one is left.
pub proof fn lemma_critical_sections_restore(reg: u32)
    ensures
        left_critical_section(entered_critical_section(reg).0) == reg,
        ({
            let (outer_saved, inside) = entered_critical_section(reg);
            let (inner_saved, nested) = entered_critical_section(inside);
            &&& nested == 0
            &&& left_critical_section(inner_saved) == 0
            &&& left_critical_section(outer_saved) == reg
        }),
{
}

} // verus!
