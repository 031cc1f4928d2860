//! Register file of the ARM7TDMI with mode banking.
//!
//! Software sees R0..R15. R8..R14 are banked by mode: FIQ has its own
//! R8_fiq..R14_fiq; IRQ, Supervisor, Abort and Undefined bank only R13 and R14;
//! User and System share one bank. R15 (the PC) is never banked.
use vstd::prelude::*;
use crate::cpu::psr::CpuMode;

verus! {

/// Banked R13 (SP) and R14 (LR) of one mode.
#[derive(Clone, Copy)]
pub struct BankedSet {
    pub sp: u32,
    pub lr: u32,
}

/// The FIQ bank: R8..R12 as well as SP and LR.
#[derive(Clone, Copy)]
pub struct FiqBank {
    pub r8_12: [u32; 5],
    pub sp: u32,
    pub lr: u32,
}

/// Registers visible now plus the banks of every mode.
pub struct RegisterFile {
    /// Registers visible now (R0..R15).
    pub active: [u32; 16],
    /// User-mode copy of R8..R12 (kept while FIQ mode is active).
    user_r8_12: [u32; 5],
    /// User/System bank of R13/R14.
    user_bank: BankedSet,
    fiq: FiqBank,
    irq: BankedSet,
    svc: BankedSet,
    abt: BankedSet,
    und: BankedSet,
    current_mode: CpuMode,
}

/// Whether two modes share one bank of R13/R14 (only User and System do,
/// besides a mode with itself).
pub open spec fn same_bank(a: CpuMode, b: CpuMode) -> bool {
    a == b || ((a == CpuMode::User || a == CpuMode::System) && (b == CpuMode::User || b
        == CpuMode::System))
}

impl RegisterFile {
    /// The registers visible now, R0..R15.
    pub closed spec fn regs(&self) -> Seq<u32> {
        self.active@
    }

    /// The mode whose bank is visible now.
    pub closed spec fn mode(&self) -> CpuMode {
        self.current_mode
    }

    /// The R13 stored in the bank of mode `m`.
    pub closed spec fn banked_sp(&self, m: CpuMode) -> u32 {
        match m {
            CpuMode::Fiq => self.fiq.sp,
            CpuMode::Irq => self.irq.sp,
            CpuMode::Supervisor => self.svc.sp,
            CpuMode::Abort => self.abt.sp,
            CpuMode::Undefined => self.und.sp,
            CpuMode::User | CpuMode::System => self.user_bank.sp,
        }
    }

    /// The R14 stored in the bank of mode `m`.
    pub closed spec fn banked_lr(&self, m: CpuMode) -> u32 {
        match m {
            CpuMode::Fiq => self.fiq.lr,
            CpuMode::Irq => self.irq.lr,
            CpuMode::Supervisor => self.svc.lr,
            CpuMode::Abort => self.abt.lr,
            CpuMode::Undefined => self.und.lr,
            CpuMode::User | CpuMode::System => self.user_bank.lr,
        }
    }

    /// The R8..R12 stored for mode `m` (FIQ has its own; every other mode
    /// shares the user copy).
    pub closed spec fn banked_r8_12(&self, m: CpuMode) -> Seq<u32> {
        if m == CpuMode::Fiq {
            self.fiq.r8_12@
        } else {
            self.user_r8_12@
        }
    }

    /// `f` is the register file after `o` switches to mode `new`: the bank of
    /// the old mode takes the visible R8..R14 it owns, and the bank of the new
    /// mode becomes visible; R0..R7 and R15 are untouched.
    pub closed spec fn switched(o: RegisterFile, f: RegisterFile, new: CpuMode) -> bool {
        if new == o.mode() {
            f.active@ == o.active@ && f.mode() == o.mode() && (forall|m: CpuMode|
                f.banked_sp(m) == o.banked_sp(m) && f.banked_lr(m) == o.banked_lr(m)
                    && f.banked_r8_12(m) == o.banked_r8_12(m))
        } else {
            &&& f.mode() == new
            &&& forall|m: CpuMode|
                #![trigger f.banked_sp(m)]
                #![trigger f.banked_lr(m)]
                f.banked_sp(m) == (if same_bank(m, o.mode()) {
                    o.active@[13]
                } else {
                    o.banked_sp(m)
                }) && f.banked_lr(m) == (if same_bank(m, o.mode()) {
                    o.active@[14]
                } else {
                    o.banked_lr(m)
                })
            &&& forall|m: CpuMode|
                #![trigger f.banked_r8_12(m)]
                f.banked_r8_12(m) == (if (m == CpuMode::Fiq) == (o.mode() == CpuMode::Fiq) {
                    o.active@.subrange(8, 13)
                } else {
                    o.banked_r8_12(m)
                })
            &&& f.active@.len() == 16
            &&& forall|i: int| 0 <= i < 8 ==> f.active@[i] == o.active@[i]
            &&& f.active@[15] == o.active@[15]
            &&& f.active@.subrange(8, 13) == f.banked_r8_12(new)
            &&& f.active@[13] == f.banked_sp(new)
            &&& f.active@[14] == f.banked_lr(new)
        }
    }

    /// All registers zero, System mode.
    pub fn new() -> (r: RegisterFile)
        ensures
            r.mode() == CpuMode::System,
            r.regs().len() == 16,
            forall|i: int| 0 <= i < 16 ==> r.regs()[i] == 0,
            forall|m: CpuMode| r.banked_sp(m) == 0 && r.banked_lr(m) == 0,
            forall|m: CpuMode| r.banked_r8_12(m) == seq![0u32, 0u32, 0u32, 0u32, 0u32],
    {
        let zero = BankedSet { sp: 0, lr: 0 };
        RegisterFile {
            active: [0; 16],
            user_r8_12: [0; 5],
            user_bank: zero,
            fiq: FiqBank { r8_12: [0; 5], sp: 0, lr: 0 },
            irq: zero,
            svc: zero,
            abt: zero,
            und: zero,
            current_mode: CpuMode::System,
        }
    }

    /// Reads R[idx].
    pub fn get(&self, idx: usize) -> (r: u32)
        requires
            idx < 16,
        ensures
            r == self.regs()[idx as int],
    {
        self.active[idx]
    }

    /// Writes R[idx]; nothing else changes.
    pub fn set(&mut self, idx: usize, value: u32)
        requires
            idx < 16,
        ensures
            final(self).regs() == old(self).regs().update(idx as int, value),
            final(self).mode() == old(self).mode(),
            forall|m: CpuMode|
                final(self).banked_sp(m) == old(self).banked_sp(m) && final(self).banked_lr(m)
                    == old(self).banked_lr(m) && final(self).banked_r8_12(m) == old(
                    self,
                ).banked_r8_12(m),
    {
        self.active[idx] = value;
    }

    /// The program counter (R15).
    pub fn pc(&self) -> (r: u32)
        ensures
            r == self.regs()[15],
    {
        self.active[15]
    }

    /// Writes the program counter.
    pub fn set_pc(&mut self, v: u32)
        ensures
            final(self).regs() == old(self).regs().update(15, v),
            final(self).mode() == old(self).mode(),
            forall|m: CpuMode|
                final(self).banked_sp(m) == old(self).banked_sp(m) && final(self).banked_lr(m)
                    == old(self).banked_lr(m) && final(self).banked_r8_12(m) == old(
                    self,
                ).banked_r8_12(m),
    {
        self.set(15, v);
    }

    /// The link register (R14).
    pub fn lr(&self) -> (r: u32)
        ensures
            r == self.regs()[14],
    {
        self.active[14]
    }

    /// Writes the link register.
    pub fn set_lr(&mut self, v: u32)
        ensures
            final(self).regs() == old(self).regs().update(14, v),
            final(self).mode() == old(self).mode(),
            forall|m: CpuMode|
                final(self).banked_sp(m) == old(self).banked_sp(m) && final(self).banked_lr(m)
                    == old(self).banked_lr(m) && final(self).banked_r8_12(m) == old(
                    self,
                ).banked_r8_12(m),
    {
        self.set(14, v);
    }

    /// The stack pointer (R13).
    pub fn sp(&self) -> (r: u32)
        ensures
            r == self.regs()[13],
    {
        self.active[13]
    }

    /// Makes the bank of mode `new` visible. Called whenever the CPSR changes
    /// mode (MSR, exception entry or return).
    pub fn switch_mode(&mut self, new: CpuMode)
        ensures
            RegisterFile::switched(*old(self), *final(self), new),
    {
        if new == self.current_mode {
            return;
        }
        let ghost o = *self;
        self.save_current_bank();
        let ghost s = *self;
        self.load_bank(new);
        self.current_mode = new;
        proof {
            assert forall|m: CpuMode| #[trigger] self.banked_sp(m) == s.banked_sp(m) && self.banked_lr(m) == s.banked_lr(m)
                && self.banked_r8_12(m) == s.banked_r8_12(m) by {}
            assert forall|m: CpuMode| #[trigger] self.banked_r8_12(m) == (if (m == CpuMode::Fiq) == (o.mode()
                    == CpuMode::Fiq) {
                    o.active@.subrange(8, 13)
                } else {
                    o.banked_r8_12(m)
                }) by {
                assert(self.banked_r8_12(m) == s.banked_r8_12(m));
            }
        }
    }

    fn copy_r8_12(&self) -> (r: [u32; 5])
        ensures
            r@ == self.active@.subrange(8, 13),
    {
        let r = [self.active[8], self.active[9], self.active[10], self.active[11], self.active[12]];
        assert(r@ =~= self.active@.subrange(8, 13));
        r
    }

    fn put_r8_12(&mut self, src: [u32; 5])
        ensures
            final(self).active@ == old(self).active@.subrange(0, 8) + src@ + old(
                self,
            ).active@.subrange(13, 16),
            final(self).user_r8_12 == old(self).user_r8_12,
            final(self).user_bank == old(self).user_bank,
            final(self).fiq == old(self).fiq,
            final(self).irq == old(self).irq,
            final(self).svc == old(self).svc,
            final(self).abt == old(self).abt,
            final(self).und == old(self).und,
            final(self).current_mode == old(self).current_mode,
    {
        self.active[8] = src[0];
        self.active[9] = src[1];
        self.active[10] = src[2];
        self.active[11] = src[3];
        self.active[12] = src[4];
        assert(self.active@ =~= old(self).active@.subrange(0, 8) + src@ + old(
            self,
        ).active@.subrange(13, 16));
    }

    fn save_current_bank(&mut self)
        ensures
            final(self).active == old(self).active,
            final(self).current_mode == old(self).current_mode,
            forall|m: CpuMode|
                #![trigger final(self).banked_sp(m)]
                #![trigger final(self).banked_lr(m)]
                final(self).banked_sp(m) == (if same_bank(m, old(self).mode()) {
                    old(self).active@[13]
                } else {
                    old(self).banked_sp(m)
                }) && final(self).banked_lr(m) == (if same_bank(m, old(self).mode()) {
                    old(self).active@[14]
                } else {
                    old(self).banked_lr(m)
                }),
            forall|m: CpuMode|
                #![trigger final(self).banked_r8_12(m)]
                final(self).banked_r8_12(m) == (if (m == CpuMode::Fiq) == (old(self).mode()
                    == CpuMode::Fiq) {
                    old(self).active@.subrange(8, 13)
                } else {
                    old(self).banked_r8_12(m)
                }),
    {
        let sp = self.active[13];
        let lr = self.active[14];
        let r8 = self.copy_r8_12();
        match self.current_mode {
            CpuMode::Fiq => {
                self.fiq = FiqBank { r8_12: r8, sp, lr };
            },
            CpuMode::Irq => {
                self.irq = BankedSet { sp, lr };
            },
            CpuMode::Supervisor => {
                self.svc = BankedSet { sp, lr };
            },
            CpuMode::Abort => {
                self.abt = BankedSet { sp, lr };
            },
            CpuMode::Undefined => {
                self.und = BankedSet { sp, lr };
            },
            CpuMode::User | CpuMode::System => {
                self.user_bank = BankedSet { sp, lr };
            },
        }
        if self.current_mode != CpuMode::Fiq {
            self.user_r8_12 = r8;
        }
    }

    fn load_bank(&mut self, new: CpuMode)
        ensures
            final(self).active@.len() == 16,
            forall|i: int| 0 <= i < 8 ==> final(self).active@[i] == old(self).active@[i],
            final(self).active@[15] == old(self).active@[15],
            final(self).active@.subrange(8, 13) == old(self).banked_r8_12(new),
            final(self).active@[13] == old(self).banked_sp(new),
            final(self).active@[14] == old(self).banked_lr(new),
            final(self).user_r8_12 == old(self).user_r8_12,
            final(self).user_bank == old(self).user_bank,
            final(self).fiq == old(self).fiq,
            final(self).irq == old(self).irq,
            final(self).svc == old(self).svc,
            final(self).abt == old(self).abt,
            final(self).und == old(self).und,
            final(self).current_mode == old(self).current_mode,
    {
        let src = if new == CpuMode::Fiq {
            self.fiq.r8_12
        } else {
            self.user_r8_12
        };
        self.put_r8_12(src);
        let (sp, lr) = match new {
            CpuMode::Fiq => (self.fiq.sp, self.fiq.lr),
            CpuMode::Irq => (self.irq.sp, self.irq.lr),
            CpuMode::Supervisor => (self.svc.sp, self.svc.lr),
            CpuMode::Abort => (self.abt.sp, self.abt.lr),
            CpuMode::Undefined => (self.und.sp, self.und.lr),
            CpuMode::User | CpuMode::System => (self.user_bank.sp, self.user_bank.lr),
        };
        self.active[13] = sp;
        self.active[14] = lr;
    }
}

impl RegisterFile {
    /// Same mode and same banks (the visible registers may differ).
    pub open spec fn same_banks(a: RegisterFile, b: RegisterFile) -> bool {
        &&& a.mode() == b.mode()
        &&& forall|m: CpuMode|
            a.banked_sp(m) == b.banked_sp(m) && a.banked_lr(m) == b.banked_lr(m) && a.banked_r8_12(m)
                == b.banked_r8_12(m)
    }

    /// What a switch to another mode stores: the old mode's bank takes the
    /// visible SP and LR; banks of other modes keep theirs.
    pub proof fn lemma_switched_banks(o: RegisterFile, f: RegisterFile, new: CpuMode)
        requires
            RegisterFile::switched(o, f, new),
            new != o.mode(),
        ensures
            f.banked_sp(o.mode()) == o.regs()[13],
            f.banked_lr(o.mode()) == o.regs()[14],
            forall|m: CpuMode| !same_bank(m, o.mode()) ==> #[trigger] f.banked_sp(m) == o.banked_sp(m),
    {
    }

    /// What a switch to mode `new` shows: the new mode, R0..R7 and R15 kept.
    /// Switching the mode of an all-zero register file shows zeros only.
    pub proof fn lemma_switched_zero(o: RegisterFile, f: RegisterFile, new: CpuMode)
        requires
            RegisterFile::switched(o, f, new),
            o.regs().len() == 16,
            forall|i: int| 0 <= i < 16 ==> o.regs()[i] == 0,
            forall|m: CpuMode| o.banked_sp(m) == 0 && o.banked_lr(m) == 0,
            forall|m: CpuMode| o.banked_r8_12(m) == seq![0u32, 0u32, 0u32, 0u32, 0u32],
        ensures
            forall|i: int| 0 <= i < 16 ==> f.regs()[i] == 0,
    {
        if new != o.mode() {
            assert forall|i: int| 8 <= i < 13 implies f.regs()[i] == 0 by {
                assert(f.active@[i] == f.active@.subrange(8, 13)[i - 8]);
            }
        }
    }

    pub proof fn lemma_switched(o: RegisterFile, f: RegisterFile, new: CpuMode)
        requires
            RegisterFile::switched(o, f, new),
        ensures
            f.mode() == new,
            f.regs().len() == 16,
            forall|i: int| 0 <= i < 8 ==> f.regs()[i] == o.regs()[i],
            f.regs()[15] == o.regs()[15],
            new == o.mode() ==> f.regs() == o.regs(),
    {
    }
}

impl RegisterFile {
    /// What a switch to another mode shows in R8..R14: the new mode's own
    /// bank as it was stored before the switch, or the visible registers
    /// where the two modes share that bank.
    pub proof fn lemma_switch_shows_bank(o: RegisterFile, f: RegisterFile, new: CpuMode)
        requires
            RegisterFile::switched(o, f, new),
            new != o.mode(),
            o.regs().len() == 16,
        ensures
            f.regs()[13] == (if same_bank(new, o.mode()) { o.regs()[13] } else { o.banked_sp(new) }),
            f.regs()[14] == (if same_bank(new, o.mode()) { o.regs()[14] } else { o.banked_lr(new) }),
            f.regs().subrange(8, 13) == (if (new == CpuMode::Fiq) == (o.mode() == CpuMode::Fiq) {
                o.regs().subrange(8, 13)
            } else {
                o.banked_r8_12(new)
            }),
            f.banked_sp(new) == f.regs()[13],
            f.banked_lr(new) == f.regs()[14],
    {
    }

    /// A switch to the mode that is already visible changes nothing.
    pub proof fn lemma_switched_self(r: RegisterFile)
        ensures
            RegisterFile::switched(r, r, r.mode()),
    {
    }
}

/// Law of mode banking: User and System mode share one register bank, so a
/// switch between them leaves every visible register (R0..R15) as it was.
pub proof fn law_user_system_share_bank(o: RegisterFile, f: RegisterFile, new: CpuMode)
    requires
        o.regs().len() == 16,
        o.mode() == CpuMode::User || o.mode() == CpuMode::System,
        new == CpuMode::User || new == CpuMode::System,
        RegisterFile::switched(o, f, new),
    ensures
        f.regs() == o.regs(),
        f.mode() == new,
{
    if new != o.mode() {
        assert(f.banked_sp(new) == o.active@[13]);
        assert(f.banked_lr(new) == o.active@[14]);
        assert(f.banked_r8_12(new) == o.active@.subrange(8, 13));
        assert forall|i: int| 8 <= i < 13 implies f.active@[i] == o.active@[i] by {
            assert(f.active@.subrange(8, 13)[i - 8] == f.active@[i]);
            assert(o.active@.subrange(8, 13)[i - 8] == o.active@[i]);
        }
        assert(f.active@ =~= o.active@);
    }
}

/// Law of mode banking: switching to another mode and back restores every
/// visible register (R0..R15) to the value it had before the first switch.
pub proof fn law_switch_round_trip(a: RegisterFile, b: RegisterFile, c: RegisterFile, m: CpuMode)
    requires
        a.regs().len() == 16,
        m != a.mode(),
        RegisterFile::switched(a, b, m),
        RegisterFile::switched(b, c, a.mode()),
    ensures
        c.regs() == a.regs(),
        c.mode() == a.mode(),
{
    assert(c.banked_sp(a.mode()) == a.active@[13]);
    assert(c.banked_lr(a.mode()) == a.active@[14]);
    assert(c.banked_r8_12(a.mode()) == a.active@.subrange(8, 13)) by {
        assert(b.banked_r8_12(a.mode()) == a.active@.subrange(8, 13) || b.banked_r8_12(m)
            == a.active@.subrange(8, 13));
    }
    assert forall|i: int| 8 <= i < 13 implies c.active@[i] == a.active@[i] by {
        assert(c.active@.subrange(8, 13)[i - 8] == c.active@[i]);
        assert(a.active@.subrange(8, 13)[i - 8] == a.active@[i]);
    }
    assert(c.active@ =~= a.active@);
}

impl Default for RegisterFile {
    fn default() -> (r: RegisterFile)
        ensures
            r.mode() == CpuMode::System,
            forall|i: int| 0 <= i < 16 ==> r.regs()[i] == 0,
    {
        RegisterFile::new()
    }
}

} // verus!
