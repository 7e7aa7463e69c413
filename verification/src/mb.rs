//! Per-macroblock records shared by the encoding, mode-decision and syntax
//! writing stages.
use vstd::prelude::*;

verus! {

pub const MB_TYPE_INTRA4x4: u32 = 0x00000001;
pub const MB_TYPE_INTRA16x16: u32 = 0x00000002;
pub const MB_TYPE_INTRA8x8: u32 = 0x00000004;
pub const MB_TYPE_16x16: u32 = 0x00000008;
pub const MB_TYPE_16x8: u32 = 0x00000010;
pub const MB_TYPE_8x16: u32 = 0x00000020;
pub const MB_TYPE_8x8: u32 = 0x00000040;
pub const MB_TYPE_8x8_REF0: u32 = 0x00000080;
pub const MB_TYPE_SKIP: u32 = 0x00000100;
pub const MB_TYPE_INTRA_PCM: u32 = 0x00000200;
pub const MB_TYPE_INTRA_BL: u32 = 0x00000400;
pub const MB_TYPE_INTRA: u32 = 0x00000207;

pub const SUB_MB_TYPE_8x8: u8 = 0x01;

pub const LEFT_MB_POS: u8 = 0x01;
pub const TOP_MB_POS: u8 = 0x02;
pub const TOPRIGHT_MB_POS: u8 = 0x04;
pub const TOPLEFT_MB_POS: u8 = 0x08;

/// A motion vector in quarter-sample (or, during integer search, whole-sample)
/// units.
#[derive(Clone, Copy, Debug, Default, PartialEq, Eq, Structural)]
pub struct SMVUnitXY {
    pub iMvX: i16,
    pub iMvY: i16,
}

impl SMVUnitXY {
    pub fn new(iMvX: i16, iMvY: i16) -> (r: Self)
        ensures
            r.iMvX == iMvX,
            r.iMvY == iMvY,
    {
        SMVUnitXY { iMvX, iMvY }
    }

    /// Stores `a - b` component-wise.
    pub fn sDeltaMv(&mut self, a: SMVUnitXY, b: SMVUnitXY)
        requires
            i16::MIN <= a.iMvX - b.iMvX <= i16::MAX,
            i16::MIN <= a.iMvY - b.iMvY <= i16::MAX,
        ensures
            final(self).iMvX == a.iMvX - b.iMvX,
            final(self).iMvY == a.iMvY - b.iMvY,
    {
        self.iMvX = a.iMvX - b.iMvX;
        self.iMvY = a.iMvY - b.iMvY;
    }
}

/// The quantised, zigzag-scanned coefficients of one macroblock.
#[derive(Clone, Copy, Debug)]
pub struct SDCTCoeff {
    pub iLumaBlock: [[i16; 16]; 16],
    pub iLumaI16x16Dc: [i16; 16],
    pub iChromaBlock: [[i16; 16]; 8],
    pub iChromaDc: [[i16; 4]; 2],
}

impl SDCTCoeff {
    pub fn new() -> (r: Self)
        ensures
            forall|i: int, j: int| 0 <= i < 16 && 0 <= j < 16 ==> r.iLumaBlock[i][j] == 0,
            forall|i: int| 0 <= i < 16 ==> r.iLumaI16x16Dc[i] == 0,
            forall|i: int, j: int| 0 <= i < 8 && 0 <= j < 16 ==> r.iChromaBlock[i][j] == 0,
            forall|i: int, j: int| 0 <= i < 2 && 0 <= j < 4 ==> r.iChromaDc[i][j] == 0,
    {
        SDCTCoeff {
            iLumaBlock: [[0i16; 16]; 16],
            iLumaI16x16Dc: [0i16; 16],
            iChromaBlock: [[0i16; 16]; 8],
            iChromaDc: [[0i16; 4]; 2],
        }
    }
}

/// One macroblock's coding decisions.
#[derive(Clone, Copy, Debug)]
pub struct SMB {
    pub uiMbType: u32,
    pub uiCbp: u8,
    pub iCbpDc: u16,
    pub uiLumaQp: u8,
    pub uiChromaQp: u8,
    pub uiSliceIdc: u16,
    pub uiNeighborAvail: u8,
    pub iMbXY: i32,
    pub iMbX: i16,
    pub iMbY: i16,
    pub iNonZeroCount: [i8; 24],
    pub sMv: [SMVUnitXY; 16],
    pub sMvd: [SMVUnitXY; 16],
    pub iRefIndex: [i8; 4],
    pub uiSubMbType: [u8; 4],
    pub sP16x16Mv: SMVUnitXY,
    pub iSadCost: i32,
    pub iLumaDQp: i32,
}

impl SMB {
    pub fn new() -> (r: Self)
        ensures
            r.uiMbType == 0,
            r.uiCbp == 0,
            r.iCbpDc == 0,
            r.uiLumaQp == 0,
            r.uiChromaQp == 0,
            forall|i: int| 0 <= i < 24 ==> r.iNonZeroCount[i] == 0,
            forall|i: int| 0 <= i < 4 ==> r.iRefIndex[i] == 0,
    {
        SMB {
            uiMbType: 0,
            uiCbp: 0,
            iCbpDc: 0,
            uiLumaQp: 0,
            uiChromaQp: 0,
            uiSliceIdc: 0,
            uiNeighborAvail: 0,
            iMbXY: 0,
            iMbX: 0,
            iMbY: 0,
            iNonZeroCount: [0i8; 24],
            sMv: [SMVUnitXY { iMvX: 0, iMvY: 0 }; 16],
            sMvd: [SMVUnitXY { iMvX: 0, iMvY: 0 }; 16],
            iRefIndex: [0i8; 4],
            uiSubMbType: [0u8; 4],
            sP16x16Mv: SMVUnitXY { iMvX: 0, iMvY: 0 },
            iSadCost: 0,
            iLumaDQp: 0,
        }
    }
}

/// Motion-vector and reference-index caches around one macroblock, in the
/// 6-wide layout whose row 0 and column 0 hold the neighbours.
#[derive(Clone, Copy, Debug)]
pub struct TagMVComponentUnit {
    pub sMotionVectorCache: [SMVUnitXY; 29],
    pub iRefIndexCache: [i8; 30],
}

/// Per-slice scratch for the macroblock being coded.
#[derive(Debug)]
pub struct SMbCache {
    /// Neighbour-aware non-zero coefficient counts in the 8-wide cache layout.
    pub iNonZeroCoeffCount: [i8; 48],
    pub sDct: SDCTCoeff,
    /// Raster-order transform coefficients of the whole macroblock (384 values).
    pub sCoeffLevel: Vec<i16>,
    pub bPrevIntra4x4PredModeFlag: [bool; 16],
    pub iRemIntra4x4PredModeFlag: [i8; 16],
    pub uiChmaI8x8Mode: u8,
    pub uiLumaI16x16Mode: u8,
    pub sMbMvp: [SMVUnitXY; 16],
    pub sMvComponents: TagMVComponentUnit,
    /// The macroblock's first vector is zero (it predicts from the
    /// collocated block).
    pub bCollocatedPredFlag: bool,
}

} // verus!
