use vstd::prelude::*;

verus! {

/// How the meter is wired.
#[derive(Clone, Copy, Debug, PartialEq, Eq)]
pub enum MeasuringSystem {
    /// 3P.N
    Setup3PN,
    /// 3P.1
    Setup3P1,
    /// 2P
    Setup2P,
    /// 1P
    Setup1P,
    /// 3P
    Setup3P,
}

impl MeasuringSystem {
    /// The number that the meter reports for the wiring.
    pub open spec fn spec_code(&self) -> u16 {
        match self {
            MeasuringSystem::Setup3PN => 0,
            MeasuringSystem::Setup3P1 => 1,
            MeasuringSystem::Setup2P => 2,
            MeasuringSystem::Setup1P => 3,
            MeasuringSystem::Setup3P => 4,
        }
    }

    /// The number that the meter reports for the wiring.
    pub fn code(&self) -> (code: u16)
        ensures
            code == self.spec_code(),
    {
        match self {
            MeasuringSystem::Setup3PN => 0,
            MeasuringSystem::Setup3P1 => 1,
            MeasuringSystem::Setup2P => 2,
            MeasuringSystem::Setup1P => 3,
            MeasuringSystem::Setup3P => 4,
        }
    }
}

/// The block of instantaneous values that the meter exposes, in the order of
/// its registers. Voltages are in tenths of a volt, currents in thousandths
/// of an ampere, powers and energies in tenths of their unit.
#[derive(Clone, Copy, Debug, Default, PartialEq, Eq)]
pub struct InstantaneousData {
    pub v_l1_n: i32,
    pub v_l2_n: i32,
    pub v_l3_n: i32,
    pub v_l1_l2: i32,
    pub v_l2_l3: i32,
    pub v_l3_l1: i32,
    pub a_l1: i32,
    pub a_l2: i32,
    pub a_l3: i32,
    pub w_l1: i32,
    pub w_l2: i32,
    pub w_l3: i32,
    pub va_l1: i32,
    pub va_l2: i32,
    pub va_l3: i32,
    pub var_l1: i32,
    pub var_l2: i32,
    pub var_l3: i32,
    pub v_l_n_sum: i32,
    pub v_l_l_sum: i32,
    pub w_sum: i32,
    pub va_sum: i32,
    pub var_sum: i32,
    pub pf_l1: i16,
    pub pf_l2: i16,
    pub pf_l3: i16,
    pub pf_sum: i16,
    pub phase_sequence: i16,
    pub hz: u16,
    pub kwh_plus_total: i32,
    pub kvarh_plus_total: i32,
    pub dmd_w_sum: i32,
    pub dmd_w_sum_max: i32,
    pub kwh_plus_par: i32,
    pub kvarh_plus_par: i32,
    pub kwh_plus_l1: i32,
    pub kwh_plus_l2: i32,
    pub kwh_plus_l3: i32,
    pub kwh_plus_t1: i32,
    pub kwh_plus_t2: i32,
    pub kwh_plus_t3: i32,
    pub kwh_plus_t4: i32,
    pub kwh_neg_total: i32,
}

/// The two's complement of a 32-bit value as a number from zero on.
pub open spec fn unsigned32(x: i32) -> int {
    if x < 0 {
        x + 0x1_0000_0000
    } else {
        x as int
    }
}

/// The lower 16 bits of a 32-bit value.
pub open spec fn low_word(x: i32) -> u16 {
    (unsigned32(x) % 0x1_0000) as u16
}

/// The upper 16 bits of a 32-bit value.
pub open spec fn high_word(x: i32) -> u16 {
    (unsigned32(x) / 0x1_0000) as u16
}

/// The two registers of a 32-bit value: the lower word comes first.
pub open spec fn words(x: i32) -> Seq<u16> {
    seq![low_word(x), high_word(x)]
}

/// The register of a signed 16-bit value: its two's complement.
pub open spec fn word(x: i16) -> u16 {
    if x < 0 {
        (x + 0x1_0000) as u16
    } else {
        x as u16
    }
}

/// A power reading that is ten tenths of a watt higher, wrapping round at
/// the end of the 32-bit range.
pub open spec fn bumped(w: i32) -> i32 {
    if w + 10 > i32::MAX {
        (w + 10 - 0x1_0000_0000) as i32
    } else {
        (w + 10) as i32
    }
}

/// The registers of a serial number: each pair of bytes is one register,
/// the first byte the upper one. A last byte without a partner is left out.
pub open spec fn spec_serial_words(serial: Seq<u8>) -> Seq<u16> {
    Seq::new(serial.len() / 2, |i: int| (serial[2 * i] * 0x100 + serial[2 * i + 1]) as u16)
}

impl InstantaneousData {
    /// The 80 registers of the block.
    pub open spec fn spec_registers(&self) -> Seq<u16> {
        Seq::<u16>::empty()
            + words(self.v_l1_n)
            + words(self.v_l2_n)
            + words(self.v_l3_n)
            + words(self.v_l1_l2)
            + words(self.v_l2_l3)
            + words(self.v_l3_l1)
            + words(self.a_l1)
            + words(self.a_l2)
            + words(self.a_l3)
            + words(self.w_l1)
            + words(self.w_l2)
            + words(self.w_l3)
            + words(self.va_l1)
            + words(self.va_l2)
            + words(self.va_l3)
            + words(self.var_l1)
            + words(self.var_l2)
            + words(self.var_l3)
            + words(self.v_l_n_sum)
            + words(self.v_l_l_sum)
            + words(self.w_sum)
            + words(self.va_sum)
            + words(self.var_sum)
            + seq![word(self.pf_l1)]
            + seq![word(self.pf_l2)]
            + seq![word(self.pf_l3)]
            + seq![word(self.pf_sum)]
            + seq![word(self.phase_sequence)]
            + seq![self.hz]
            + words(self.kwh_plus_total)
            + words(self.kvarh_plus_total)
            + words(self.dmd_w_sum)
            + words(self.dmd_w_sum_max)
            + words(self.kwh_plus_par)
            + words(self.kvarh_plus_par)
            + words(self.kwh_plus_l1)
            + words(self.kwh_plus_l2)
            + words(self.kwh_plus_l3)
            + words(self.kwh_plus_t1)
            + words(self.kwh_plus_t2)
            + words(self.kwh_plus_t3)
            + words(self.kwh_plus_t4)
            + words(self.kwh_neg_total)
    }

    /// The 80 registers of the block.
    pub fn to_registers(&self) -> (registers: Vec<u16>)
        ensures
            registers@ == self.spec_registers(),
            registers@.len() == 80,
    {
        let mut registers: Vec<u16> = Vec::new();
        assert(registers@ == Seq::<u16>::empty());
        push_words(&mut registers, self.v_l1_n);
        push_words(&mut registers, self.v_l2_n);
        push_words(&mut registers, self.v_l3_n);
        push_words(&mut registers, self.v_l1_l2);
        push_words(&mut registers, self.v_l2_l3);
        push_words(&mut registers, self.v_l3_l1);
        push_words(&mut registers, self.a_l1);
        push_words(&mut registers, self.a_l2);
        push_words(&mut registers, self.a_l3);
        push_words(&mut registers, self.w_l1);
        push_words(&mut registers, self.w_l2);
        push_words(&mut registers, self.w_l3);
        push_words(&mut registers, self.va_l1);
        push_words(&mut registers, self.va_l2);
        push_words(&mut registers, self.va_l3);
        push_words(&mut registers, self.var_l1);
        push_words(&mut registers, self.var_l2);
        push_words(&mut registers, self.var_l3);
        push_words(&mut registers, self.v_l_n_sum);
        push_words(&mut registers, self.v_l_l_sum);
        push_words(&mut registers, self.w_sum);
        push_words(&mut registers, self.va_sum);
        push_words(&mut registers, self.var_sum);
        push_word(&mut registers, self.pf_l1);
        push_word(&mut registers, self.pf_l2);
        push_word(&mut registers, self.pf_l3);
        push_word(&mut registers, self.pf_sum);
        push_word(&mut registers, self.phase_sequence);
        let ghost before = registers@;
        registers.push(self.hz);
        assert(registers@ =~= before + seq![self.hz]);
        push_words(&mut registers, self.kwh_plus_total);
        push_words(&mut registers, self.kvarh_plus_total);
        push_words(&mut registers, self.dmd_w_sum);
        push_words(&mut registers, self.dmd_w_sum_max);
        push_words(&mut registers, self.kwh_plus_par);
        push_words(&mut registers, self.kvarh_plus_par);
        push_words(&mut registers, self.kwh_plus_l1);
        push_words(&mut registers, self.kwh_plus_l2);
        push_words(&mut registers, self.kwh_plus_l3);
        push_words(&mut registers, self.kwh_plus_t1);
        push_words(&mut registers, self.kwh_plus_t2);
        push_words(&mut registers, self.kwh_plus_t3);
        push_words(&mut registers, self.kwh_plus_t4);
        push_words(&mut registers, self.kwh_neg_total);
        registers
    }
}

/// Appends the two registers of a 32-bit value.
fn push_words(registers: &mut Vec<u16>, x: i32)
    ensures
        final(registers)@ == old(registers)@ + words(x),
        final(registers)@.len() == old(registers)@.len() + 2,
{
    let unsigned: i64 = if x < 0 {
        x as i64 + 0x1_0000_0000
    } else {
        x as i64
    };
    let ghost before = registers@;
    registers.push((unsigned % 0x1_0000) as u16);
    registers.push((unsigned / 0x1_0000) as u16);
    assert(registers@ =~= before + words(x));
}

/// Appends the register of a signed 16-bit value.
fn push_word(registers: &mut Vec<u16>, x: i16)
    ensures
        final(registers)@ == old(registers)@ + seq![word(x)],
        final(registers)@.len() == old(registers)@.len() + 1,
{
    let unsigned: i32 = if x < 0 {
        x as i32 + 0x1_0000
    } else {
        x as i32
    };
    let ghost before = registers@;
    registers.push(unsigned as u16);
    assert(registers@ =~= before + seq![word(x)]);
}

/// The block after one read of it: every read raises the power of the first
/// phase, so that a client sees the values move.
pub open spec fn after_read(data: InstantaneousData) -> InstantaneousData {
    InstantaneousData { w_l1: bumped(data.w_l1), ..data }
}

/// What the meter answers to a read of `count` holding registers from
/// `address` on, or `None` where it answers that the function is illegal.
/// Only the blocks of the meter's register map are served, each as a whole.
pub open spec fn spec_read_holding_registers(
    data: InstantaneousData,
    measuring_system: MeasuringSystem,
    serial_number: Seq<u8>,
    address: u16,
    count: u16,
) -> Option<Seq<u16>> {
    if address == 0x000B && count == 1 {
        Some(seq![0x0670u16])
    } else if address == 0xA000 && count == 1 {
        Some(seq![0x0007u16])
    } else if address == 0x0302 && count == 1 {
        Some(seq![0x101Eu16])
    } else if address == 0x0304 && count == 1 {
        Some(seq![0x101Eu16])
    } else if address == 0x1002 && count == 1 {
        Some(seq![measuring_system.spec_code()])
    } else if address == 0x5000 && count == 7 {
        Some(spec_serial_words(serial_number))
    } else if address == 0xA100 && count == 1 {
        Some(seq![0x0000u16])
    } else if address == 0x0000 && count == 80 {
        Some(after_read(data).spec_registers())
    } else {
        None
    }
}

/// The registers of a serial number.
pub fn serial_words(serial_number: &[u8]) -> (registers: Vec<u16>)
    ensures
        registers@ == spec_serial_words(serial_number@),
{
    let pairs: usize = serial_number.len() / 2;
    let mut registers: Vec<u16> = Vec::new();
    let mut i: usize = 0;
    while i < pairs
        invariant
            pairs == serial_number@.len() / 2,
            2 * pairs <= serial_number@.len() <= usize::MAX,
            i <= pairs,
            registers@.len() == i,
            forall|k: int|
                0 <= k < i ==> registers@[k] == (serial_number@[2 * k] * 0x100 + serial_number@[2
                    * k + 1]) as u16,
        decreases pairs - i,
    {
        let upper: u16 = serial_number[2 * i] as u16;
        let lower: u16 = serial_number[2 * i + 1] as u16;
        registers.push(upper * 0x100 + lower);
        i = i + 1;
    }
    assert(registers@ =~= spec_serial_words(serial_number@));
    registers
}

/// Answers a read of `count` holding registers from `address` on. A read of
/// the block of instantaneous values first raises the power of the first
/// phase and then reports the block; no other read changes anything.
pub fn read_holding_registers(
    data: &mut InstantaneousData,
    measuring_system: MeasuringSystem,
    serial_number: &[u8],
    address: u16,
    count: u16,
) -> (answer: Option<Vec<u16>>)
    ensures
        match answer {
            Some(registers) => spec_read_holding_registers(
                *old(data),
                measuring_system,
                serial_number@,
                address,
                count,
            ) == Some(registers@),
            None => spec_read_holding_registers(
                *old(data),
                measuring_system,
                serial_number@,
                address,
                count,
            ) is None,
        },
        *final(data) == if address == 0 && count == 80 {
            after_read(*old(data))
        } else {
            *old(data)
        },
{
    if address == 0x000B && count == 1 {
        Some(one_register(0x0670))
    } else if address == 0xA000 && count == 1 {
        Some(one_register(0x0007))
    } else if address == 0x0302 && count == 1 {
        Some(one_register(0x101E))
    } else if address == 0x0304 && count == 1 {
        Some(one_register(0x101E))
    } else if address == 0x1002 && count == 1 {
        Some(one_register(measuring_system.code()))
    } else if address == 0x5000 && count == 7 {
        Some(serial_words(serial_number))
    } else if address == 0xA100 && count == 1 {
        Some(one_register(0x0000))
    } else if address == 0x0000 && count == 80 {
        if data.w_l1 > i32::MAX - 10 {
            data.w_l1 = (data.w_l1 - (i32::MAX - 9)) + i32::MIN;
        } else {
            data.w_l1 = data.w_l1 + 10;
        }
        Some(data.to_registers())
    } else {
        None
    }
}

/// An answer of one register.
fn one_register(value: u16) -> (registers: Vec<u16>)
    ensures
        registers@ == seq![value],
{
    let mut registers: Vec<u16> = Vec::new();
    registers.push(value);
    assert(registers@ =~= seq![value]);
    registers
}

} // verus!
