//! Decoded x86 instructions, as far as detection reads them, and the shapes of
//! the instructions that load or store the address of a table.
use vstd::prelude::*;

verus! {

/// capstone's number of the `lea` instruction.
pub const LEA: u32 = 332;

/// capstone's number of the `mov` instruction.
pub const MOV: u32 = 460;

/// capstone's number of the register `rip`.
pub const RIP: u32 = 41;

/// `X86Insn::X86_INS_LEA` of capstone, as a number. The instruction table of
/// capstone-sys gives `lea` the number 332.
#[verifier::external_body]
fn capstone_lea() -> (id: u32)
    ensures
        id == LEA,
{
    capstone::arch::x86::X86Insn::X86_INS_LEA as u32
}

/// `X86Insn::X86_INS_MOV` of capstone, as a number. The instruction table of
/// capstone-sys gives `mov` the number 460.
#[verifier::external_body]
fn capstone_mov() -> (id: u32)
    ensures
        id == MOV,
{
    capstone::arch::x86::X86Insn::X86_INS_MOV as u32
}

/// `X86Reg::X86_REG_RIP` of capstone. The register table of capstone-sys gives
/// `rip` the number 41.
#[verifier::external_body]
fn capstone_rip() -> (id: u32)
    ensures
        id == RIP,
{
    capstone::arch::x86::X86Reg::X86_REG_RIP
}

/// What an instruction does, as far as detection tells instructions apart.
#[derive(Clone, Copy, Debug, PartialEq, Eq, Structural)]
pub enum Mnemonic {
    /// Load effective address.
    Lea,
    /// Move.
    Mov,
    /// Any other instruction.
    Other,
}

impl Mnemonic {
    /// The mnemonic that capstone's instruction number `id` stands for.
    pub open spec fn of_id(id: u32) -> Mnemonic {
        if id == LEA {
            Mnemonic::Lea
        } else if id == MOV {
            Mnemonic::Mov
        } else {
            Mnemonic::Other
        }
    }

    /// The mnemonic of the instruction that capstone numbers `id`.
    pub fn from_id(id: u32) -> (mnemonic: Mnemonic)
        ensures
            mnemonic == Mnemonic::of_id(id),
    {
        if id == capstone_lea() {
            Mnemonic::Lea
        } else if id == capstone_mov() {
            Mnemonic::Mov
        } else {
            Mnemonic::Other
        }
    }
}

/// A register, known by the number capstone gives it. Two registers are the
/// same only if their numbers are: `eax` is not `rax`.
#[derive(Clone, Copy, Debug, PartialEq, Eq, Structural)]
pub struct Register {
    pub id: u16,
}

impl Register {
    /// Whether this is the instruction pointer `rip`.
    pub open spec fn names_instruction_pointer(self) -> bool {
        self.id == RIP
    }

    /// Whether this is the instruction pointer `rip`.
    pub fn is_instruction_pointer(&self) -> (yes: bool)
        ensures
            yes == self.names_instruction_pointer(),
    {
        self.id as u32 == capstone_rip()
    }
}

/// One operand of an instruction.
#[derive(Clone, Copy, Debug, PartialEq, Eq, Structural)]
pub enum Operand {
    /// A register.
    Register(Register),
    /// A place in memory: the value of `base` plus `displacement`.
    Memory { base: Register, displacement: i64 },
    /// A constant.
    Immediate(i64),
    /// An operand that the decoder could not name.
    Invalid,
}

/// A decoded instruction.
#[derive(Debug, PartialEq, Eq)]
pub struct Instruction {
    /// Address of the first byte of the instruction.
    pub address: u64,
    /// The bytes that encode it.
    pub bytes: Vec<u8>,
    pub mnemonic: Mnemonic,
    /// The operands, destination first.
    pub operands: Vec<Operand>,
}

/// The address that an operand relative to the instruction pointer names:
/// `displacement` counted from the end of the instruction, which begins at
/// `address` and is `length` bytes long. The sum is taken in the 64-bit address
/// space.
pub open spec fn effective_address(address: u64, displacement: i64, length: nat) -> u64 {
    ((address + displacement + length) % 0x1_0000_0000_0000_0000) as u64
}

/// A signed constant read as an address: the 64-bit pattern of `value`, taken
/// as an unsigned number.
pub open spec fn as_address(value: i64) -> u64 {
    (value as int % 0x1_0000_0000_0000_0000) as u64
}

impl Instruction {
    /// What `lea register, [rip + displacement]` loads: the register, and the
    /// address that the memory operand names. `None` for any other instruction.
    pub open spec fn loaded_address(&self) -> Option<(Register, u64)> {
        if self.mnemonic == Mnemonic::Lea && self.operands@.len() == 2 {
            match (self.operands@[0], self.operands@[1]) {
                (Operand::Register(target), Operand::Memory { base, displacement }) => {
                    if base.names_instruction_pointer() {
                        Some(
                            (
                                target,
                                effective_address(self.address, displacement, self.bytes@.len()),
                            ),
                        )
                    } else {
                        None
                    }
                },
                _ => None,
            }
        } else {
            None
        }
    }

    /// Whether this is `mov [memory], register` with the given register as
    /// its source.
    pub open spec fn stores_register(&self, register: Register) -> bool {
        &&& self.mnemonic == Mnemonic::Mov
        &&& self.operands@.len() == 2
        &&& self.operands@[0] is Memory
        &&& self.operands@[1] == Operand::Register(register)
    }

    /// What `mov [memory], constant` stores, read as an address, if the
    /// constant is in the range of a signed 32-bit number. `None` for any other
    /// instruction.
    pub open spec fn stored_address(&self) -> Option<u64> {
        if self.mnemonic == Mnemonic::Mov && self.operands@.len() == 2 {
            match (self.operands@[0], self.operands@[1]) {
                (Operand::Memory { .. }, Operand::Immediate(value)) => {
                    if i32::MIN <= value <= i32::MAX {
                        Some(as_address(value))
                    } else {
                        None
                    }
                },
                _ => None,
            }
        } else {
            None
        }
    }

    /// The register and the address that this instruction loads, if it is
    /// `lea register, [rip + displacement]`.
    pub fn load_relative_to_ip(&self) -> (load: Option<(Register, u64)>)
        ensures
            load == self.loaded_address(),
    {
        if self.mnemonic != Mnemonic::Lea || self.operands.len() != 2 {
            return None;
        }
        match (self.operands[0], self.operands[1]) {
            (Operand::Register(target), Operand::Memory { base, displacement }) => {
                if base.is_instruction_pointer() {
                    let length = self.bytes.len() as u64;
                    let address = self.address.wrapping_add_signed(displacement).wrapping_add(
                        length,
                    );
                    Some((target, address))
                } else {
                    None
                }
            },
            _ => None,
        }
    }

    /// The address that this instruction stores, if it is
    /// `mov [memory], constant` with a constant of 32 bits.
    pub fn store_of_constant(&self) -> (address: Option<u64>)
        ensures
            address == self.stored_address(),
    {
        if self.mnemonic != Mnemonic::Mov || self.operands.len() != 2 {
            return None;
        }
        match (self.operands[0], self.operands[1]) {
            (Operand::Memory { .. }, Operand::Immediate(value)) => {
                if -0x8000_0000 <= value && value <= 0x7fff_ffff {
                    Some(0u64.wrapping_add_signed(value))
                } else {
                    None
                }
            },
            _ => None,
        }
    }
}

/// Whether `insn` is `mov [memory], register` with `reg` as its source.
pub fn is_mov_from_reg_to_mem(insn: &Instruction, reg: &Register) -> (yes: bool)
    ensures
        yes == insn.stores_register(*reg),
{
    if insn.mnemonic != Mnemonic::Mov || insn.operands.len() != 2 {
        return false;
    }
    match (insn.operands[0], insn.operands[1]) {
        (Operand::Memory { .. }, Operand::Register(source)) => source == *reg,
        _ => false,
    }
}

} // verus!
