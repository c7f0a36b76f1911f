//! GX command set: opcodes and parameter counts.
//!
//! Commands are submitted two ways:
//!
//! - Packed format via `GXFIFO` at `0x04000400`. One 32-bit word packs up to 4
//!   command IDs (one byte each); successive words supply parameters in
//!   declaration order.
//! - Direct ports at `0x04000440..0x040005FF`. Each command has a dedicated
//!   address; writing to it submits that command with one parameter.

use vstd::prelude::*;

verus! {

#[derive(Debug, Clone, Copy, PartialEq, Eq, Structural)]
pub enum GxCmd {
    // Matrix commands
    MtxMode,
    MtxPush,
    MtxPop,
    MtxStore,
    MtxRestore,
    MtxIdentity,
    MtxLoad4x4,
    MtxLoad4x3,
    MtxMult4x4,
    MtxMult4x3,
    MtxMult3x3,
    MtxScale,
    MtxTrans,
    // Vertex attribute commands
    Color,
    Normal,
    TexCoord,
    Vtx16,
    Vtx10,
    VtxXY,
    VtxXZ,
    VtxYZ,
    VtxDiff,
    PolygonAttr,
    TexImageParm,
    PltBase,
    // Lighting and material commands
    DifAmb,
    SpeEmi,
    LightVector,
    LightColor,
    Shininess,
    // Geometry control
    BeginVtxs,
    EndVtxs,
    SwapBuffers,
    Viewport,
    // Test commands
    BoxTest,
    PosTest,
    VecTest,
}

impl GxCmd {
    /// The opcode of a command.
    pub open spec fn code(self) -> u8 {
        match self {
            GxCmd::MtxMode => 0x10,
            GxCmd::MtxPush => 0x11,
            GxCmd::MtxPop => 0x12,
            GxCmd::MtxStore => 0x13,
            GxCmd::MtxRestore => 0x14,
            GxCmd::MtxIdentity => 0x15,
            GxCmd::MtxLoad4x4 => 0x16,
            GxCmd::MtxLoad4x3 => 0x17,
            GxCmd::MtxMult4x4 => 0x18,
            GxCmd::MtxMult4x3 => 0x19,
            GxCmd::MtxMult3x3 => 0x1A,
            GxCmd::MtxScale => 0x1B,
            GxCmd::MtxTrans => 0x1C,
            GxCmd::Color => 0x20,
            GxCmd::Normal => 0x21,
            GxCmd::TexCoord => 0x22,
            GxCmd::Vtx16 => 0x23,
            GxCmd::Vtx10 => 0x24,
            GxCmd::VtxXY => 0x25,
            GxCmd::VtxXZ => 0x26,
            GxCmd::VtxYZ => 0x27,
            GxCmd::VtxDiff => 0x28,
            GxCmd::PolygonAttr => 0x29,
            GxCmd::TexImageParm => 0x2A,
            GxCmd::PltBase => 0x2B,
            GxCmd::DifAmb => 0x30,
            GxCmd::SpeEmi => 0x31,
            GxCmd::LightVector => 0x32,
            GxCmd::LightColor => 0x33,
            GxCmd::Shininess => 0x34,
            GxCmd::BeginVtxs => 0x40,
            GxCmd::EndVtxs => 0x41,
            GxCmd::SwapBuffers => 0x50,
            GxCmd::Viewport => 0x60,
            GxCmd::BoxTest => 0x70,
            GxCmd::PosTest => 0x71,
            GxCmd::VecTest => 0x72,
        }
    }

    /// Parameter words that follow the opcode.
    pub open spec fn params(self) -> u8 {
        match self {
            GxCmd::MtxPush | GxCmd::MtxIdentity | GxCmd::EndVtxs => 0,
            GxCmd::Vtx16 | GxCmd::PosTest => 2,
            GxCmd::MtxScale | GxCmd::MtxTrans | GxCmd::BoxTest => 3,
            GxCmd::MtxMult3x3 => 9,
            GxCmd::MtxLoad4x3 | GxCmd::MtxMult4x3 => 12,
            GxCmd::MtxLoad4x4 | GxCmd::MtxMult4x4 => 16,
            GxCmd::Shininess => 32,
            _ => 1,
        }
    }

    /// The opcode of a command.
    pub fn opcode(self) -> (r: u8)
        ensures
            r == self.code(),
    {
        match self {
            GxCmd::MtxMode => 0x10,
            GxCmd::MtxPush => 0x11,
            GxCmd::MtxPop => 0x12,
            GxCmd::MtxStore => 0x13,
            GxCmd::MtxRestore => 0x14,
            GxCmd::MtxIdentity => 0x15,
            GxCmd::MtxLoad4x4 => 0x16,
            GxCmd::MtxLoad4x3 => 0x17,
            GxCmd::MtxMult4x4 => 0x18,
            GxCmd::MtxMult4x3 => 0x19,
            GxCmd::MtxMult3x3 => 0x1A,
            GxCmd::MtxScale => 0x1B,
            GxCmd::MtxTrans => 0x1C,
            GxCmd::Color => 0x20,
            GxCmd::Normal => 0x21,
            GxCmd::TexCoord => 0x22,
            GxCmd::Vtx16 => 0x23,
            GxCmd::Vtx10 => 0x24,
            GxCmd::VtxXY => 0x25,
            GxCmd::VtxXZ => 0x26,
            GxCmd::VtxYZ => 0x27,
            GxCmd::VtxDiff => 0x28,
            GxCmd::PolygonAttr => 0x29,
            GxCmd::TexImageParm => 0x2A,
            GxCmd::PltBase => 0x2B,
            GxCmd::DifAmb => 0x30,
            GxCmd::SpeEmi => 0x31,
            GxCmd::LightVector => 0x32,
            GxCmd::LightColor => 0x33,
            GxCmd::Shininess => 0x34,
            GxCmd::BeginVtxs => 0x40,
            GxCmd::EndVtxs => 0x41,
            GxCmd::SwapBuffers => 0x50,
            GxCmd::Viewport => 0x60,
            GxCmd::BoxTest => 0x70,
            GxCmd::PosTest => 0x71,
            GxCmd::VecTest => 0x72,
        }
    }

    /// The command with opcode `b`, if there is one.
    pub fn from_u8(b: u8) -> (r: Option<Self>)
        ensures
            match r {
                Some(c) => c.code() == b,
                None => forall|c: GxCmd| (#[trigger] c.code()) != b,
            },
            r == command_of(b),
    {
        let cmd: GxCmd = match b {
            0x10 => GxCmd::MtxMode,
            0x11 => GxCmd::MtxPush,
            0x12 => GxCmd::MtxPop,
            0x13 => GxCmd::MtxStore,
            0x14 => GxCmd::MtxRestore,
            0x15 => GxCmd::MtxIdentity,
            0x16 => GxCmd::MtxLoad4x4,
            0x17 => GxCmd::MtxLoad4x3,
            0x18 => GxCmd::MtxMult4x4,
            0x19 => GxCmd::MtxMult4x3,
            0x1A => GxCmd::MtxMult3x3,
            0x1B => GxCmd::MtxScale,
            0x1C => GxCmd::MtxTrans,
            0x20 => GxCmd::Color,
            0x21 => GxCmd::Normal,
            0x22 => GxCmd::TexCoord,
            0x23 => GxCmd::Vtx16,
            0x24 => GxCmd::Vtx10,
            0x25 => GxCmd::VtxXY,
            0x26 => GxCmd::VtxXZ,
            0x27 => GxCmd::VtxYZ,
            0x28 => GxCmd::VtxDiff,
            0x29 => GxCmd::PolygonAttr,
            0x2A => GxCmd::TexImageParm,
            0x2B => GxCmd::PltBase,
            0x30 => GxCmd::DifAmb,
            0x31 => GxCmd::SpeEmi,
            0x32 => GxCmd::LightVector,
            0x33 => GxCmd::LightColor,
            0x34 => GxCmd::Shininess,
            0x40 => GxCmd::BeginVtxs,
            0x41 => GxCmd::EndVtxs,
            0x50 => GxCmd::SwapBuffers,
            0x60 => GxCmd::Viewport,
            0x70 => GxCmd::BoxTest,
            0x71 => GxCmd::PosTest,
            0x72 => GxCmd::VecTest,
            _ => {
                proof {
                    lemma_no_command(b);
                }
                return None;
            },
        };
        proof {
            lemma_command_of_code(cmd);
        }
        Some(cmd)
    }

    /// How many 32-bit parameter words follow this opcode.
    pub fn param_count(self) -> (r: u8)
        ensures
            r == self.params(),
            r <= 32,
    {
        match self {
            GxCmd::MtxPush | GxCmd::MtxIdentity | GxCmd::EndVtxs => 0,
            GxCmd::Vtx16 | GxCmd::PosTest => 2,
            GxCmd::MtxScale | GxCmd::MtxTrans | GxCmd::BoxTest => 3,
            GxCmd::MtxMult3x3 => 9,
            GxCmd::MtxLoad4x3 | GxCmd::MtxMult4x3 => 12,
            GxCmd::MtxLoad4x4 | GxCmd::MtxMult4x4 => 16,
            GxCmd::Shininess => 32,
            _ => 1,
        }
    }

    /// Direct-port address: the ports start at `0x04000440` and step by 4 per
    /// opcode.
    pub fn direct_port_addr(self) -> (r: u32)
        ensures
            r == 0x0400_0440 + (self.code() - 0x10) * 4,
    {
        0x0400_0440 + (self.opcode() as u32 - 0x10) * 4
    }
}

/// The command with opcode `b`, if there is one.
pub open spec fn command_of(b: u8) -> Option<GxCmd> {
    if exists|c: GxCmd| (#[trigger] c.code()) == b {
        Some(choose|c: GxCmd| (#[trigger] c.code()) == b)
    } else {
        None
    }
}

/// Opcodes tell commands apart: decoding an opcode gives its command back.
pub proof fn law_opcode_round_trip(c: GxCmd)
    ensures
        command_of(c.code()) == Some(c),
{
    lemma_command_of_code(c);
}

proof fn lemma_codes_differ(c: GxCmd, d: GxCmd)
    requires
        c.code() == d.code(),
    ensures
        c == d,
{
}

proof fn lemma_command_of_code(c: GxCmd)
    ensures
        command_of(c.code()) == Some(c),
{
    let d = choose|d: GxCmd| (#[trigger] d.code()) == c.code();
    lemma_codes_differ(c, d);
}

/// Bytes between and beyond the opcode groups are no commands.
proof fn lemma_no_command(b: u8)
    requires
        b < 0x10 || 0x1C < b < 0x20 || 0x2B < b < 0x30 || 0x34 < b < 0x40 || 0x41 < b < 0x50 || 0x50
            < b < 0x60 || 0x60 < b < 0x70 || 0x72 < b,
    ensures
        forall|c: GxCmd| (#[trigger] c.code()) != b,
        command_of(b) is None,
{
}

pub proof fn lemma_zero_is_no_command()
    ensures
        command_of(0) is None,
{
}

/// The opcodes follow each other within their groups, as the commands are listed; the
/// groups begin at 0x10, 0x20, 0x30, 0x40, 0x50, 0x60 and 0x70.
pub proof fn law_opcodes_in_order()
    ensures
        GxCmd::MtxMode.code() == 0x10,
        GxCmd::MtxPush.code() == GxCmd::MtxMode.code() + 1,
        GxCmd::MtxPop.code() == GxCmd::MtxPush.code() + 1,
        GxCmd::MtxStore.code() == GxCmd::MtxPop.code() + 1,
        GxCmd::MtxRestore.code() == GxCmd::MtxStore.code() + 1,
        GxCmd::MtxIdentity.code() == GxCmd::MtxRestore.code() + 1,
        GxCmd::MtxLoad4x4.code() == GxCmd::MtxIdentity.code() + 1,
        GxCmd::MtxLoad4x3.code() == GxCmd::MtxLoad4x4.code() + 1,
        GxCmd::MtxMult4x4.code() == GxCmd::MtxLoad4x3.code() + 1,
        GxCmd::MtxMult4x3.code() == GxCmd::MtxMult4x4.code() + 1,
        GxCmd::MtxMult3x3.code() == GxCmd::MtxMult4x3.code() + 1,
        GxCmd::MtxScale.code() == GxCmd::MtxMult3x3.code() + 1,
        GxCmd::MtxTrans.code() == GxCmd::MtxScale.code() + 1,
        GxCmd::Color.code() == 0x20,
        GxCmd::Normal.code() == GxCmd::Color.code() + 1,
        GxCmd::TexCoord.code() == GxCmd::Normal.code() + 1,
        GxCmd::Vtx16.code() == GxCmd::TexCoord.code() + 1,
        GxCmd::Vtx10.code() == GxCmd::Vtx16.code() + 1,
        GxCmd::VtxXY.code() == GxCmd::Vtx10.code() + 1,
        GxCmd::VtxXZ.code() == GxCmd::VtxXY.code() + 1,
        GxCmd::VtxYZ.code() == GxCmd::VtxXZ.code() + 1,
        GxCmd::VtxDiff.code() == GxCmd::VtxYZ.code() + 1,
        GxCmd::PolygonAttr.code() == GxCmd::VtxDiff.code() + 1,
        GxCmd::TexImageParm.code() == GxCmd::PolygonAttr.code() + 1,
        GxCmd::PltBase.code() == GxCmd::TexImageParm.code() + 1,
        GxCmd::DifAmb.code() == 0x30,
        GxCmd::SpeEmi.code() == GxCmd::DifAmb.code() + 1,
        GxCmd::LightVector.code() == GxCmd::SpeEmi.code() + 1,
        GxCmd::LightColor.code() == GxCmd::LightVector.code() + 1,
        GxCmd::Shininess.code() == GxCmd::LightColor.code() + 1,
        GxCmd::BeginVtxs.code() == 0x40,
        GxCmd::EndVtxs.code() == GxCmd::BeginVtxs.code() + 1,
        GxCmd::SwapBuffers.code() == 0x50,
        GxCmd::Viewport.code() == 0x60,
        GxCmd::BoxTest.code() == 0x70,
        GxCmd::PosTest.code() == GxCmd::BoxTest.code() + 1,
        GxCmd::VecTest.code() == GxCmd::PosTest.code() + 1,
{
}

/// A command has as many parameter words as its operand needs: one to an entry of a
/// matrix, one to an axis of a translation or a scale, one to two halves of a vertex or
/// a box, one to four entries of the shininess table.
pub proof fn law_parameter_counts()
    ensures
        GxCmd::MtxLoad4x4.params() == 4 * 4 && GxCmd::MtxMult4x4.params() == 4 * 4,
        GxCmd::MtxLoad4x3.params() == 4 * 3 && GxCmd::MtxMult4x3.params() == 4 * 3,
        GxCmd::MtxMult3x3.params() == 3 * 3,
        GxCmd::MtxScale.params() == 3 && GxCmd::MtxTrans.params() == 3,
        2 * GxCmd::Vtx16.params() == 3 + 1 && 2 * GxCmd::PosTest.params() == 3 + 1,
        2 * GxCmd::BoxTest.params() == 6,
        4 * GxCmd::Shininess.params() == 128,
        GxCmd::MtxPush.params() == 0,
        GxCmd::MtxIdentity.params() == 0,
        GxCmd::EndVtxs.params() == 0,
        GxCmd::MtxMode.params() == 1 && GxCmd::MtxPop.params() == 1,
        GxCmd::MtxStore.params() == 1 && GxCmd::MtxRestore.params() == 1,
        GxCmd::Color.params() == 1 && GxCmd::Normal.params() == 1 && GxCmd::TexCoord.params() == 1,
        GxCmd::Vtx10.params() == 1 && GxCmd::VtxDiff.params() == 1,
        GxCmd::VtxXY.params() == 1 && GxCmd::VtxXZ.params() == 1 && GxCmd::VtxYZ.params() == 1,
        GxCmd::PolygonAttr.params() == 1 && GxCmd::TexImageParm.params() == 1,
        GxCmd::PltBase.params() == 1 && GxCmd::DifAmb.params() == 1 && GxCmd::SpeEmi.params() == 1,
        GxCmd::LightVector.params() == 1 && GxCmd::LightColor.params() == 1,
        GxCmd::BeginVtxs.params() == 1 && GxCmd::SwapBuffers.params() == 1,
        GxCmd::Viewport.params() == 1 && GxCmd::VecTest.params() == 1,
{
}

} // verus!
