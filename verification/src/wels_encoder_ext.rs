//! Encoder-level parameter handling: the integer helpers of the codec API,
//! the profile, level and reference-count checks of a layer configuration and
//! the IDR request.
use vstd::prelude::*;
use crate::bits::floor_log2;
use crate::bits::pow2_int;
use crate::svc_encode_slice::{SSliceArgument, SFrameBSInfo, SLayerBSInfo, ENC_RETURN_UNSUPPORTED_PARA};

verus! {

pub const MAX_DEPENDENCY_LAYER: i32 = 4;
pub const MAX_TEMPORAL_LEVEL: i32 = 4;
pub const MAX_GOP_SIZE: u32 = 8;
pub const MAX_SHORT_REF_COUNT: i32 = 4;
pub const MIN_BIT_RATE: i32 = 1;
pub const MAX_BIT_RATE: i32 = i32::MAX;
pub const MIN_REF_PIC_COUNT: i32 = 1;
pub const AUTO_REF_PIC_COUNT: i32 = -1;
pub const LONG_TERM_REF_NUM: i32 = 2;
pub const LONG_TERM_REF_NUM_SCREEN: i32 = 4;
pub const MAX_REFERENCE_PICTURE_COUNT_NUM_CAMERA: i32 = 6;
pub const MAX_REFERENCE_PICTURE_COUNT_NUM_SCREEN: i32 = 8;
pub const MAX_MACROBLOCK_SIZE_IN_BYTE: u32 = 400;
pub const NAL_HEADER_ADD_0X30BYTES: u32 = 20;
pub const MAX_MBS_PER_FRAME: i32 = 36864;
pub const MIN_NUM_MB_PER_SLICE: i32 = 48;
pub const GOM_MIN_QP_MODE: i32 = 12;
pub const MAX_SPATIAL_LAYER_NUM: usize = 4;
pub const SPATIAL_LAYER_0: i32 = 0;
pub const LEVEL_NUMBER: usize = 17;

/// `profile_idc` values.
pub type EProfileIdc = u32;
pub const PRO_UNKNOWN: EProfileIdc = 0;
pub const PRO_BASELINE: EProfileIdc = 66;
pub const PRO_MAIN: EProfileIdc = 77;
pub const PRO_EXTENDED: EProfileIdc = 88;
pub const PRO_HIGH: EProfileIdc = 100;
pub const PRO_SCALABLE_BASELINE: EProfileIdc = 83;
pub const PRO_SCALABLE_HIGH: EProfileIdc = 86;

/// `level_idc` values.
pub type ELevelIdc = u32;
pub const LEVEL_UNKNOWN: ELevelIdc = 0;

/// The levels the encoder knows, in the order of its level-limit table.
pub const g_kuiLevelIdcList: [ELevelIdc; 17] = [
    10, 9, 11, 12, 13, 20, 21, 22, 30, 31, 32, 40, 41, 42, 50, 51, 52,
];

/// Usage types.
pub type EUsageType = i32;
pub const CAMERA_VIDEO_REAL_TIME: EUsageType = 0;
pub const SCREEN_CONTENT_REAL_TIME: EUsageType = 1;
pub const CAMERA_VIDEO_NON_REAL_TIME: EUsageType = 2;
pub const SCREEN_CONTENT_NON_REAL_TIME: EUsageType = 3;

/// `floor(log2(v))`, and 0 for 0.
pub fn WELS_LOG2(v: u32) -> (r: i32)
    ensures
        v == 0 ==> r == 0,
        v >= 1 ==> r == floor_log2(v as int),
{
    if v == 0 {
        0
    } else {
        crate::bits::floor_log2_u32(v) as i32
    }
}

pub fn WELS_CLIP3(v: i32, min_val: i32, max_val: i32) -> (r: i32)
    ensures
        r == (if v < min_val {
            min_val
        } else if v > max_val {
            max_val
        } else {
            v
        }),
{
    if v < min_val {
        min_val
    } else if v > max_val {
        max_val
    } else {
        v
    }
}

pub fn WELS_MAX(a: i32, b: i32) -> (r: i32)
    ensures
        r == (if a > b {
            a
        } else {
            b
        }),
{
    if a > b {
        a
    } else {
        b
    }
}

pub fn WELS_MIN(a: i32, b: i32) -> (r: i32)
    ensures
        r == (if a < b {
            a
        } else {
            b
        }),
{
    if a < b {
        a
    } else {
        b
    }
}

/// `v` is a power of two.
pub fn WELS_POWER2_IF(v: u32) -> (r: bool)
    ensures
        r == (exists|k: int| 0 <= k < 32 && v == crate::bits::pow2_int(k)),
{
    let r = v != 0 && (v & (v - 1)) == 0;
    proof {
        let w: u32 = if v == 0 { 0 } else { (v - 1) as u32 };
        if r {
            let k = floor_log2(v as int) as int;
            crate::bits::lemma_floor_log2_bound(v as int);
            crate::bits::lemma_floor_log2_u32(v);
            crate::bits::lemma_pow2_u32(k as int);
            assert(crate::bits::pow2_int(k + 1) == 2 * crate::bits::pow2_int(k));
            let kk = k as u32;
            assert(v != 0 && (v & w) == 0 && kk < 32 && (1u32 << kk) <= v && v < 2 * ((1u32 << kk) as int)
                ==> v == (1u32 << kk)) by (bit_vector)
                requires
                    v != 0 ==> w == v - 1,
            ;
        } else {
            assert forall|k: int| 0 <= k < 32 implies v != crate::bits::pow2_int(k) by {
                crate::bits::lemma_pow2_u32(k);
                let kk = k as u32;
                assert(kk < 32 && v == (1u32 << kk) ==> v != 0 && (v & w) == 0) by (bit_vector)
                    requires
                        v != 0 ==> w == v - 1,
                ;
            }
        }
    }
    r
}

/// Long-term reference configuration.
#[derive(Clone, Copy, Debug, Default)]
pub struct SLTRConfig {
    pub bEnableLongTermReference: bool,
    pub iLTRRefNum: i32,
}

/// A profile request for one layer.
#[derive(Clone, Copy, Debug, Default)]
pub struct SProfileInfo {
    pub iLayer: i32,
    pub uiProfileIdc: EProfileIdc,
}

/// A level request for one layer.
#[derive(Clone, Copy, Debug, Default)]
pub struct SLevelInfo {
    pub iLayer: i32,
    pub uiLevelIdc: ELevelIdc,
}

/// The delivery status an application reports.
#[derive(Clone, Copy, Debug, Default)]
pub struct SDeliveryStatus {
    pub bDeliveryFlag: bool,
    pub iDropFrameType: i32,
    pub iDropFrameSize: i32,
}

/// The profile, level and bit rates of one spatial layer.
#[derive(Clone, Copy, Debug, Default)]
pub struct SSpatialLayerConfig {
    pub iVideoWidth: i32,
    pub iVideoHeight: i32,
    pub iSpatialBitrate: i32,
    pub iMaxSpatialBitrate: i32,
    pub uiProfileIdc: EProfileIdc,
    pub uiLevelIdc: ELevelIdc,
    pub iDLayerQp: i32,
    pub sSliceArgument: SSliceArgument,
}

/// A rectangle of the picture.
#[derive(Clone, Copy, Debug, Default)]
pub struct SRect {
    pub iLeft: i32,
    pub iTop: i32,
    pub iWidth: i32,
    pub iHeight: i32,
}

/// How sequence and picture parameter set ids are given out.
pub type EParameterSetStrategy = u32;
pub const CONSTANT_ID: EParameterSetStrategy = 0;
pub const INCREASING_ID: EParameterSetStrategy = 1;
pub const SPS_LISTING: EParameterSetStrategy = 2;
pub const SPS_LISTING_AND_PPS_INCREASING: EParameterSetStrategy = 3;
pub const SPS_PPS_LISTING: EParameterSetStrategy = 6;

/// The integer coding parameters the encoder's checks and parameter
/// adjustment read and write (frame rates are held beside them).
#[derive(Clone, Copy, Debug, Default)]
pub struct SWelsSvcCodingParam {
    pub iUsageType: EUsageType,
    pub bSimulcastAVC: bool,
    pub iSpatialLayerNum: i32,
    pub iTemporalLayerNum: i32,
    pub iNumRefFrame: i32,
    pub iMaxNumRefFrame: i32,
    pub bEnableLongTermReference: bool,
    pub iLTRRefNum: i32,
    pub sSpatialLayers: [SSpatialLayerConfig; 4],
    pub iPicWidth: i32,
    pub iPicHeight: i32,
    pub SUsedPicRect: SRect,
    pub iMultipleThreadIdc: i32,
    pub bEnableBackgroundDetection: bool,
    pub bEnableAdaptiveQuant: bool,
    pub eSpsPpsIdStrategy: EParameterSetStrategy,
    pub iComplexityMode: i32,
    pub uiIntraPeriod: u32,
    pub bPrefixNalAddingCtrl: bool,
    pub uiGopSize: u32,
    pub iDecompStages: i32,
    pub bEnableDenoise: bool,
    pub iLtrMarkPeriod: i32,
    pub bEnableSSEI: bool,
    pub bEnableFrameCroppingFlag: bool,
    pub iLoopFilterDisableIdc: i32,
    pub iLoopFilterAlphaC0Offset: i32,
    pub iLoopFilterBetaOffset: i32,
    pub iRCMode: i32,
    pub iTargetBitrate: i32,
    pub iPaddingFlag: i32,
    pub sDependencyLayers: [SSpatialLayerInternal; 4],
}

/// The profile a layer ends up with: AVC layers (every simulcast layer, and
/// layer 0) keep baseline, main and high and fall back to unknown; SVC
/// enhancement layers keep the two scalable profiles and fall back to
/// scalable baseline.
pub open spec fn checked_profile(simulcast: bool, layer: int, p: EProfileIdc) -> EProfileIdc {
    if simulcast || layer == SPATIAL_LAYER_0 {
        if p != PRO_BASELINE && p != PRO_MAIN && p != PRO_HIGH {
            PRO_UNKNOWN
        } else {
            p
        }
    } else if p != PRO_SCALABLE_BASELINE && p != PRO_SCALABLE_HIGH {
        PRO_SCALABLE_BASELINE
    } else {
        p
    }
}

pub fn CheckProfileSetting(pParam: &mut SWelsSvcCodingParam, iLayer: i32, uiProfileIdc: EProfileIdc)
    requires
        0 <= iLayer < 4,
    ensures
        final(pParam).sSpatialLayers[iLayer as int].uiProfileIdc == checked_profile(
            old(pParam).bSimulcastAVC,
            iLayer as int,
            uiProfileIdc,
        ),
        final(pParam).sSpatialLayers[iLayer as int] == (SSpatialLayerConfig {
            uiProfileIdc: final(pParam).sSpatialLayers[iLayer as int].uiProfileIdc,
            ..old(pParam).sSpatialLayers[iLayer as int]
        }),
        forall|i: int| 0 <= i < 4 && i != iLayer ==> #[trigger] final(pParam).sSpatialLayers[i] == old(pParam).sSpatialLayers[i],
        *final(pParam) == (SWelsSvcCodingParam { sSpatialLayers: final(pParam).sSpatialLayers, ..*old(pParam) }),
{
    let l = iLayer as usize;
    let p = if pParam.bSimulcastAVC || iLayer == SPATIAL_LAYER_0 {
        if uiProfileIdc != PRO_BASELINE && uiProfileIdc != PRO_MAIN && uiProfileIdc != PRO_HIGH {
            PRO_UNKNOWN
        } else {
            uiProfileIdc
        }
    } else if uiProfileIdc != PRO_SCALABLE_BASELINE && uiProfileIdc != PRO_SCALABLE_HIGH {
        PRO_SCALABLE_BASELINE
    } else {
        uiProfileIdc
    };
    pParam.sSpatialLayers[l].uiProfileIdc = p;
}

/// The level is one the encoder knows.
pub open spec fn known_level(l: ELevelIdc) -> bool {
    exists|i: int| 0 <= i < 17 && g_kuiLevelIdcList[i] == l
}

/// Accepts the level for the layer when the encoder knows it, and leaves the
/// layer at the unknown level otherwise.
pub fn CheckLevelSetting(pParam: &mut SWelsSvcCodingParam, iLayer: i32, uiLevelIdc: ELevelIdc)
    requires
        0 <= iLayer < 4,
    ensures
        final(pParam).sSpatialLayers[iLayer as int].uiLevelIdc == if known_level(uiLevelIdc) {
            uiLevelIdc
        } else {
            LEVEL_UNKNOWN
        },
        final(pParam).sSpatialLayers[iLayer as int] == (SSpatialLayerConfig {
            uiLevelIdc: final(pParam).sSpatialLayers[iLayer as int].uiLevelIdc,
            ..old(pParam).sSpatialLayers[iLayer as int]
        }),
        forall|i: int| 0 <= i < 4 && i != iLayer ==> #[trigger] final(pParam).sSpatialLayers[i] == old(pParam).sSpatialLayers[i],
        *final(pParam) == (SWelsSvcCodingParam { sSpatialLayers: final(pParam).sSpatialLayers, ..*old(pParam) }),
{
    let l = iLayer as usize;
    pParam.sSpatialLayers[l].uiLevelIdc = LEVEL_UNKNOWN;
    let mut i: usize = LEVEL_NUMBER;
    while i > 0
        invariant
            0 <= i <= 17,
            forall|j: int| i <= j < 17 ==> #[trigger] g_kuiLevelIdcList[j] != uiLevelIdc,
            pParam.sSpatialLayers[iLayer as int].uiLevelIdc == LEVEL_UNKNOWN,
            pParam.sSpatialLayers[iLayer as int] == (SSpatialLayerConfig {
                uiLevelIdc: LEVEL_UNKNOWN,
                ..old(pParam).sSpatialLayers[iLayer as int]
            }),
            forall|k: int| 0 <= k < 4 && k != iLayer ==> #[trigger] pParam.sSpatialLayers[k] == old(pParam).sSpatialLayers[k],
            *pParam == (SWelsSvcCodingParam { sSpatialLayers: pParam.sSpatialLayers, ..*old(pParam) }),
            l == iLayer,
            0 <= iLayer < 4,
        decreases i,
    {
        i = i - 1;
        if g_kuiLevelIdcList[i] == uiLevelIdc {
            pParam.sSpatialLayers[l].uiLevelIdc = uiLevelIdc;
            return ;
        }
    }
}

/// Takes the requested reference count when it lies in `[1, upper]` (the
/// upper bound depending on camera or screen usage), the automatic count
/// otherwise.
pub fn CheckReferenceNumSetting(pParam: &mut SWelsSvcCodingParam, iNumRef: i32)
    ensures
        final(pParam).iNumRefFrame == ({
            let upper = if old(pParam).iUsageType == CAMERA_VIDEO_REAL_TIME {
                MAX_REFERENCE_PICTURE_COUNT_NUM_CAMERA
            } else {
                MAX_REFERENCE_PICTURE_COUNT_NUM_SCREEN
            };
            if iNumRef < MIN_REF_PIC_COUNT || iNumRef > upper {
                AUTO_REF_PIC_COUNT
            } else {
                iNumRef
            }
        }),
        *final(pParam) == (SWelsSvcCodingParam { iNumRefFrame: final(pParam).iNumRefFrame, ..*old(pParam) }),
{
    let upper = if pParam.iUsageType == CAMERA_VIDEO_REAL_TIME {
        MAX_REFERENCE_PICTURE_COUNT_NUM_CAMERA
    } else {
        MAX_REFERENCE_PICTURE_COUNT_NUM_SCREEN
    };
    pParam.iNumRefFrame = iNumRef;
    if iNumRef < MIN_REF_PIC_COUNT || iNumRef > upper {
        pParam.iNumRefFrame = AUTO_REF_PIC_COUNT;
    }
}

/// The coding position of one dependency layer.
#[derive(Clone, Copy, Debug, Default)]
pub struct SSpatialLayerInternal {
    pub iActualWidth: i32,
    pub iActualHeight: i32,
    pub iTemporalResolution: i32,
    pub iDecompositionStages: i32,
    pub uiCodingIdx2TemporalId: [u8; 17],
    pub iCodingIndex: i32,
    pub iFrameIndex: i32,
    pub iFrameNum: i32,
    pub iPOC: i32,
    pub bEncCurFrmAsIdrFlag: bool,
}

/// The integer statistics of one layer (the frame and bit rates are held
/// beside them).
#[derive(Clone, Copy, Debug, Default)]
pub struct SEncoderStatistics {
    pub uiIDRReqNum: u32,
    pub uiIDRSentNum: u32,
    pub uiWidth: u32,
    pub uiHeight: u32,
    pub uiResolutionChangeTimes: u32,
    pub uiInputFrameCount: u32,
    pub uiSkippedFrameCount: u32,
    pub uiAverageFrameQP: u32,
    pub uiLTRSentNum: u32,
    pub iTotalEncodedBytes: u64,
}

/// What an IDR request changes of the encoder.
#[derive(Debug)]
pub struct SEncCtxIdrState {
    pub sDependencyLayers: [SSpatialLayerInternal; 4],
    pub sEncoderStatistics: [SEncoderStatistics; 4],
    pub bCheckWindowStatusRefreshFlag: bool,
}

/// The layer restarted at an IDR frame.
pub open spec fn restarted(l: SSpatialLayerInternal) -> SSpatialLayerInternal {
    SSpatialLayerInternal { iCodingIndex: 0, iFrameIndex: 0, iFrameNum: 0, iPOC: 0, bEncCurFrmAsIdrFlag: true, ..l }
}

/// Requests an IDR frame: every layer (or, for simulcast AVC with a valid
/// `iLayerId`, only that layer) restarts its coding position and is coded as
/// IDR next; the request is counted once per restarted layer in the
/// statistics of layer 0 (or of `iLayerId`). Answers 1 without parameters.
pub fn ForceCodingIDR(pParam: Option<&SWelsSvcCodingParam>, pCtx: &mut SEncCtxIdrState, iLayerId: i32) -> (r: i32)
    requires
        pParam matches Some(p) ==> 0 <= p.iSpatialLayerNum <= 4,
    ensures
        match pParam {
            None => r == 1 && pCtx == old(pCtx),
            Some(p) => {
                let all = iLayerId < 0 || iLayerId >= MAX_SPATIAL_LAYER_NUM || !p.bSimulcastAVC;
                let (first, last) = if all {
                    (0int, p.iSpatialLayerNum as int)
                } else {
                    (iLayerId as int, iLayerId + 1)
                };
                let stat = if all { 0int } else { iLayerId as int };
                &&& r == 0
                &&& forall|d: int| 0 <= d < 4 ==> #[trigger] final(pCtx).sDependencyLayers[d] == if first <= d < last {
                    restarted(old(pCtx).sDependencyLayers[d])
                } else {
                    old(pCtx).sDependencyLayers[d]
                }
                &&& forall|s: int| 0 <= s < 4 && s != stat ==> #[trigger] final(pCtx).sEncoderStatistics[s] == old(pCtx).sEncoderStatistics[s]
                &&& final(pCtx).sEncoderStatistics[stat] == (SEncoderStatistics {
                    uiIDRReqNum: ((old(pCtx).sEncoderStatistics[stat].uiIDRReqNum + (last - first)) % 0x1_0000_0000) as u32,
                    ..old(pCtx).sEncoderStatistics[stat]
                })
                &&& !final(pCtx).bCheckWindowStatusRefreshFlag
            },
        },
{
    let p = match pParam {
        None => {
            return 1;
        },
        Some(p) => p,
    };
    let all = iLayerId < 0 || iLayerId >= MAX_SPATIAL_LAYER_NUM as i32 || !p.bSimulcastAVC;
    let first: i32 = if all { 0 } else { iLayerId };
    let last: i32 = if all { p.iSpatialLayerNum } else { iLayerId + 1 };
    let stat: usize = if all { 0 } else { iLayerId as usize };
    let ghost s0 = old(pCtx).sEncoderStatistics[stat as int].uiIDRReqNum as int;
    let mut d = first;
    while d < last
        invariant
            0 <= first <= d <= last <= 4,
            stat < 4,
            forall|k: int| 0 <= k < 4 ==> #[trigger] pCtx.sDependencyLayers[k] == if first <= k < d {
                restarted(old(pCtx).sDependencyLayers[k])
            } else {
                old(pCtx).sDependencyLayers[k]
            },
            forall|s: int| 0 <= s < 4 && s != stat ==> #[trigger] pCtx.sEncoderStatistics[s] == old(pCtx).sEncoderStatistics[s],
            pCtx.sEncoderStatistics[stat as int] == (SEncoderStatistics {
                uiIDRReqNum: ((s0 + (d - first)) % 0x1_0000_0000) as u32,
                ..old(pCtx).sEncoderStatistics[stat as int]
            }),
            pCtx.bCheckWindowStatusRefreshFlag == old(pCtx).bCheckWindowStatusRefreshFlag,
            0 <= s0 <= u32::MAX,
        decreases last - d,
    {
        let di = d as usize;
        pCtx.sDependencyLayers[di].iCodingIndex = 0;
        pCtx.sDependencyLayers[di].iFrameIndex = 0;
        pCtx.sDependencyLayers[di].iFrameNum = 0;
        pCtx.sDependencyLayers[di].iPOC = 0;
        pCtx.sDependencyLayers[di].bEncCurFrmAsIdrFlag = true;
        let n = pCtx.sEncoderStatistics[stat].uiIDRReqNum;
        pCtx.sEncoderStatistics[stat].uiIDRReqNum = n.wrapping_add(1);
        proof {
            let a = (s0 + (d - first)) % 0x1_0000_0000;
            assert(((a + 1) % 0x1_0000_0000) == ((s0 + (d + 1 - first)) % 0x1_0000_0000)) by (nonlinear_arith)
                requires a == (s0 + (d - first)) % 0x1_0000_0000, s0 >= 0, d >= first;
            assert(n == a);
            assert(0 <= a < 0x1_0000_0000);
            if a + 1 == 0x1_0000_0000 {
                assert((a + 1) % 0x1_0000_0000 == 0);
            } else {
                assert((a + 1) % 0x1_0000_0000 == a + 1);
            }
        }
        d = d + 1;
    }
    pCtx.bCheckWindowStatusRefreshFlag = false;
    0
}


/// The long-term reference count and the reference-frame count a
/// long-term reference request asks for, for `T` temporal layers (a GOP of
/// `2^(T-1)` frames): for screen content, with long-term references four of
/// them plus `max(1, T - 1)` frames, without them none and `max(1, GOP/2)`
/// frames; for camera content two long-term references or none, plus half
/// the GOP when that exceeds one and the minimum count otherwise, clipped to
/// the camera's range.
pub open spec fn ltr_ref_counts(usage: EUsageType, ltr: bool, t: int) -> (int, int) {
    let gop = pow2_int(t - 1);
    if usage == SCREEN_CONTENT_REAL_TIME {
        if ltr {
            (LONG_TERM_REF_NUM_SCREEN as int, (if t - 1 > 1 { t - 1 } else { 1 }) + LONG_TERM_REF_NUM_SCREEN)
        } else {
            (0, if gop / 2 > 1 { gop / 2 } else { 1 })
        }
    } else {
        let n_ltr = if ltr { LONG_TERM_REF_NUM as int } else { 0 };
        let n = if gop / 2 > 1 { gop / 2 + n_ltr } else { MIN_REF_PIC_COUNT + n_ltr };
        (
            n_ltr,
            if n < MIN_REF_PIC_COUNT {
                MIN_REF_PIC_COUNT as int
            } else if n > MAX_REFERENCE_PICTURE_COUNT_NUM_CAMERA {
                MAX_REFERENCE_PICTURE_COUNT_NUM_CAMERA as int
            } else {
                n
            },
        )
    }
}

proof fn lemma_floor_log2_pow2(k: int)
    requires
        0 <= k,
    ensures
        floor_log2(pow2_int(k)) == k,
        pow2_int(k) >= 1,
    decreases k,
{
    if k > 0 {
        lemma_floor_log2_pow2(k - 1);
        assert(pow2_int(k) / 2 == pow2_int(k - 1));
    }
}

/// The configuration a long-term reference request turns `pParam` into,
/// which the encoder's parameter adjustment then takes up: the request's
/// long-term reference switch, the long-term reference count of
/// `ltr_ref_counts`, and the maximum and current reference-frame counts
/// raised to its reference-frame count when they are below it.
pub fn WelsEncoderApplyLTR(pParam: &SWelsSvcCodingParam, pLTRValue: &SLTRConfig) -> (r: SWelsSvcCodingParam)
    requires
        1 <= pParam.iTemporalLayerNum <= 31,
    ensures
        ({
            let (n_ltr, n) = ltr_ref_counts(
                pParam.iUsageType,
                pLTRValue.bEnableLongTermReference,
                pParam.iTemporalLayerNum as int,
            );
            r == (SWelsSvcCodingParam {
                bEnableLongTermReference: pLTRValue.bEnableLongTermReference,
                iLTRRefNum: n_ltr as i32,
                iMaxNumRefFrame: if n > pParam.iMaxNumRefFrame { n as i32 } else { pParam.iMaxNumRefFrame },
                iNumRefFrame: if pParam.iNumRefFrame < n { n as i32 } else { pParam.iNumRefFrame },
                ..*pParam
            })
        }),
{
    let mut sConfig = *pParam;
    let mut iNumRefFrame: i32;
    sConfig.bEnableLongTermReference = pLTRValue.bEnableLongTermReference;
    sConfig.iLTRRefNum = pLTRValue.iLTRRefNum;
    let t = sConfig.iTemporalLayerNum;
    proof {
        crate::bits::lemma_pow2_u32((t - 1) as int);
        lemma_floor_log2_pow2((t - 1) as int);
        crate::bits::lemma_pow2_u32(31);
        crate::bits::lemma_u32_shifts();
        assert(pow2_int(31) == 2 * pow2_int(30));
        crate::bits::lemma_pow2_ge((t - 1) as int, 30);
        crate::bits::lemma_i32_shifts();
    }
    let uiGopSize: i32 = (1u32 << ((t - 1) as u32)) as i32;
    if sConfig.iUsageType == SCREEN_CONTENT_REAL_TIME {
        if sConfig.bEnableLongTermReference {
            sConfig.iLTRRefNum = LONG_TERM_REF_NUM_SCREEN;
            iNumRefFrame = WELS_MAX(1, WELS_LOG2(uiGopSize as u32)) + sConfig.iLTRRefNum;
        } else {
            sConfig.iLTRRefNum = 0;
            iNumRefFrame = WELS_MAX(1, uiGopSize >> 1u32);
        }
    } else {
        if sConfig.bEnableLongTermReference {
            sConfig.iLTRRefNum = LONG_TERM_REF_NUM;
        } else {
            sConfig.iLTRRefNum = 0;
        }
        iNumRefFrame = if (uiGopSize >> 1u32) > 1 {
            (uiGopSize >> 1u32) + sConfig.iLTRRefNum
        } else {
            MIN_REF_PIC_COUNT + sConfig.iLTRRefNum
        };
        iNumRefFrame = WELS_CLIP3(iNumRefFrame, MIN_REF_PIC_COUNT, MAX_REFERENCE_PICTURE_COUNT_NUM_CAMERA);
    }
    if iNumRefFrame > sConfig.iMaxNumRefFrame {
        sConfig.iMaxNumRefFrame = iNumRefFrame;
    }
    if sConfig.iNumRefFrame < iNumRefFrame {
        sConfig.iNumRefFrame = iNumRefFrame;
    }
    sConfig
}


/// The layers the adjustment looks at: at least the first one.
pub open spec fn adjusted_layer_count(p: SWelsSvcCodingParam) -> int {
    if p.iSpatialLayerNum < 1 {
        1
    } else {
        p.iSpatialLayerNum as int
    }
}

/// A change of the whole configuration that the running encoder cannot take
/// up: the simulcast switch, the layer count, the picture or used-rectangle
/// size, the long-term reference settings, the thread setting, background
/// detection, adaptive quantisation or the parameter-set id strategy, more
/// reference frames, or a second temporal layer over a single reference.
pub open spec fn param_change_needs_reset(o: SWelsSvcCodingParam, n: SWelsSvcCodingParam) -> bool {
    ||| o.bSimulcastAVC != n.bSimulcastAVC
    ||| o.iSpatialLayerNum != n.iSpatialLayerNum
    ||| o.iPicWidth != n.iPicWidth
    ||| o.iPicHeight != n.iPicHeight
    ||| o.SUsedPicRect.iWidth != n.SUsedPicRect.iWidth
    ||| o.SUsedPicRect.iHeight != n.SUsedPicRect.iHeight
    ||| o.bEnableLongTermReference != n.bEnableLongTermReference
    ||| o.iLTRRefNum != n.iLTRRefNum
    ||| o.iMultipleThreadIdc != n.iMultipleThreadIdc
    ||| o.bEnableBackgroundDetection != n.bEnableBackgroundDetection
    ||| o.bEnableAdaptiveQuant != n.bEnableAdaptiveQuant
    ||| o.eSpsPpsIdStrategy != n.eSpsPpsIdStrategy
    ||| n.iMaxNumRefFrame > o.iMaxNumRefFrame
    ||| (o.iMaxNumRefFrame == 1 && o.iTemporalLayerNum == 1 && n.iTemporalLayerNum == 2)
}

/// A change of layer `d` that the running encoder cannot take up: its
/// picture or actual size, its slicing, its frame-rate ratios (`rate_changed`),
/// its profile, or a higher level.
pub open spec fn layer_needs_reset(o: SWelsSvcCodingParam, n: SWelsSvcCodingParam, d: int, rate_changed: bool) -> bool {
    let ol = o.sSpatialLayers[d];
    let nl = n.sSpatialLayers[d];
    let od = o.sDependencyLayers[d];
    let nd = n.sDependencyLayers[d];
    ||| ol.iVideoWidth != nl.iVideoWidth
    ||| ol.iVideoHeight != nl.iVideoHeight
    ||| od.iActualWidth != nd.iActualWidth
    ||| od.iActualHeight != nd.iActualHeight
    ||| ol.sSliceArgument.uiSliceMode != nl.sSliceArgument.uiSliceMode
    ||| ol.sSliceArgument.uiSliceNum != nl.sSliceArgument.uiSliceNum
    ||| rate_changed
    ||| ol.uiProfileIdc != nl.uiProfileIdc
    ||| (nl.uiLevelIdc as i32) > (ol.uiLevelIdc as i32)
}

/// Whether moving from `o` to `n` needs the encoder rebuilt;
/// `rates_changed[d]` says whether layer `d`'s frame-rate ratios changed.
pub open spec fn needs_reset(o: SWelsSvcCodingParam, n: SWelsSvcCodingParam, rates_changed: Seq<bool>) -> bool {
    ||| param_change_needs_reset(o, n)
    ||| exists|d: int| 0 <= d < adjusted_layer_count(o) && #[trigger] layer_needs_reset(o, n, d, rates_changed[d])
}

/// The new configuration with its reference count and loop-filter settings
/// clipped to their ranges.
pub open spec fn clipped_param(n: SWelsSvcCodingParam) -> SWelsSvcCodingParam {
    SWelsSvcCodingParam {
        iNumRefFrame: clip(n.iNumRefFrame as int, MIN_REF_PIC_COUNT as int, if n.iUsageType == CAMERA_VIDEO_REAL_TIME {
            MAX_REFERENCE_PICTURE_COUNT_NUM_CAMERA as int
        } else {
            MAX_REFERENCE_PICTURE_COUNT_NUM_SCREEN as int
        }) as i32,
        iLoopFilterDisableIdc: clip(n.iLoopFilterDisableIdc as int, 0, 6) as i32,
        iLoopFilterAlphaC0Offset: clip(n.iLoopFilterAlphaC0Offset as int, -6, 6) as i32,
        iLoopFilterBetaOffset: clip(n.iLoopFilterBetaOffset as int, -6, 6) as i32,
        ..n
    }
}

pub open spec fn clip(v: int, lo: int, hi: int) -> int {
    if v < lo {
        lo
    } else if v > hi {
        hi
    } else {
        v
    }
}

/// The running configuration after taking up the settings of `n` that need
/// no rebuild (the layers apart).
pub open spec fn taken_up(o: SWelsSvcCodingParam, n: SWelsSvcCodingParam) -> SWelsSvcCodingParam {
    SWelsSvcCodingParam {
        iComplexityMode: n.iComplexityMode,
        uiIntraPeriod: n.uiIntraPeriod,
        eSpsPpsIdStrategy: n.eSpsPpsIdStrategy,
        bPrefixNalAddingCtrl: n.bPrefixNalAddingCtrl,
        iNumRefFrame: n.iNumRefFrame,
        uiGopSize: n.uiGopSize,
        iTemporalLayerNum: n.iTemporalLayerNum,
        iDecompStages: n.iDecompStages,
        bEnableDenoise: n.bEnableDenoise,
        bEnableBackgroundDetection: n.bEnableBackgroundDetection,
        bEnableAdaptiveQuant: n.bEnableAdaptiveQuant,
        bEnableLongTermReference: n.bEnableLongTermReference,
        iLtrMarkPeriod: n.iLtrMarkPeriod,
        bEnableSSEI: n.bEnableSSEI,
        bSimulcastAVC: n.bSimulcastAVC,
        bEnableFrameCroppingFlag: n.bEnableFrameCroppingFlag,
        iLoopFilterDisableIdc: n.iLoopFilterDisableIdc,
        iLoopFilterAlphaC0Offset: n.iLoopFilterAlphaC0Offset,
        iLoopFilterBetaOffset: n.iLoopFilterBetaOffset,
        iRCMode: n.iRCMode,
        iTargetBitrate: n.iTargetBitrate,
        iPaddingFlag: n.iPaddingFlag,
        ..o
    }
}

/// A layer's rates, profile and QP taken up from the new configuration.
pub open spec fn taken_up_layer(ol: SSpatialLayerConfig, nl: SSpatialLayerConfig) -> SSpatialLayerConfig {
    SSpatialLayerConfig {
        iSpatialBitrate: nl.iSpatialBitrate,
        iMaxSpatialBitrate: nl.iMaxSpatialBitrate,
        uiProfileIdc: nl.uiProfileIdc,
        iDLayerQp: nl.iDLayerQp,
        ..ol
    }
}

/// A dependency layer after the adjustment: its coding index restarted when
/// the temporal layer count changed, its temporal structure (resolution,
/// decomposition stages and coding-index-to-temporal-id map) taken up when
/// the layer is in use.
pub open spec fn taken_up_dependency(
    od: SSpatialLayerInternal,
    nd: SSpatialLayerInternal,
    in_use: bool,
    restart: bool,
) -> SSpatialLayerInternal {
    SSpatialLayerInternal {
        iCodingIndex: if restart {
            0
        } else {
            od.iCodingIndex
        },
        iTemporalResolution: if in_use {
            nd.iTemporalResolution
        } else {
            od.iTemporalResolution
        },
        iDecompositionStages: if in_use {
            nd.iDecompositionStages
        } else {
            od.iDecompositionStages
        },
        uiCodingIdx2TemporalId: if in_use {
            nd.uiCodingIdx2TemporalId
        } else {
            od.uiCodingIdx2TemporalId
        },
        ..od
    }
}

/// Handing the running configuration back, with unchanged frame rates,
/// never needs the encoder rebuilt.
pub proof fn law_same_parameters_need_no_rebuild(p: SWelsSvcCodingParam, rates_changed: Seq<bool>)
    requires
        forall|d: int| 0 <= d < adjusted_layer_count(p) ==> !#[trigger] rates_changed[d],
    ensures
        !needs_reset(p, p, rates_changed),
{
    assert forall|d: int| 0 <= d < adjusted_layer_count(p) implies !#[trigger] layer_needs_reset(p, p, d, rates_changed[d]) by {
        assert(!rates_changed[d]);
    }
}

/// The first layer among `k..count` whose change needs a rebuild, if any.
fn layers_need_reset(o: &SWelsSvcCodingParam, n: &SWelsSvcCodingParam, kbRateChanged: &[bool; 4], count: usize) -> (r: bool)
    requires
        1 <= count <= 4,
        count == adjusted_layer_count(*o),
    ensures
        r == exists|d: int| 0 <= d < count && #[trigger] layer_needs_reset(*o, *n, d, kbRateChanged@[d]),
{
    let mut d: usize = 0;
    while d < count
        invariant
            0 <= d <= count <= 4,
            forall|k: int| 0 <= k < d ==> !#[trigger] layer_needs_reset(*o, *n, k, kbRateChanged@[k]),
        decreases count - d,
    {
        let ol = &o.sSpatialLayers[d];
        let nl = &n.sSpatialLayers[d];
        let od = &o.sDependencyLayers[d];
        let nd = &n.sDependencyLayers[d];
        if ol.iVideoWidth != nl.iVideoWidth || ol.iVideoHeight != nl.iVideoHeight || od.iActualWidth
            != nd.iActualWidth || od.iActualHeight != nd.iActualHeight {
            assert(layer_needs_reset(*o, *n, d as int, kbRateChanged@[d as int]));
            return true;
        }
        if ol.sSliceArgument.uiSliceMode != nl.sSliceArgument.uiSliceMode || ol.sSliceArgument.uiSliceNum
            != nl.sSliceArgument.uiSliceNum {
            assert(layer_needs_reset(*o, *n, d as int, kbRateChanged@[d as int]));
            return true;
        }
        if kbRateChanged[d] {
            assert(layer_needs_reset(*o, *n, d as int, kbRateChanged@[d as int]));
            return true;
        }
        if ol.uiProfileIdc != nl.uiProfileIdc {
            assert(layer_needs_reset(*o, *n, d as int, kbRateChanged@[d as int]));
            return true;
        }
        if (nl.uiLevelIdc as i32) > (ol.uiLevelIdc as i32) {
            assert(layer_needs_reset(*o, *n, d as int, kbRateChanged@[d as int]));
            return true;
        }
        d = d + 1;
    }
    false
}


/// The running configuration takes up the settings of `n` that need no
/// rebuild; a change of temporal layer count restarts every layer's coding
/// index.
#[verifier::spinoff_prover]
fn take_up_params(pOldParam: &mut SWelsSvcCodingParam, n: &SWelsSvcCodingParam)
    ensures
        *final(pOldParam) == (SWelsSvcCodingParam {
            sDependencyLayers: final(pOldParam).sDependencyLayers,
            ..taken_up(*old(pOldParam), *n)
        }),
        forall|d: int| 0 <= d < 4 ==> #[trigger] final(pOldParam).sDependencyLayers[d] == if old(
            pOldParam,
        ).iTemporalLayerNum != n.iTemporalLayerNum {
            SSpatialLayerInternal { iCodingIndex: 0, ..old(pOldParam).sDependencyLayers[d] }
        } else {
            old(pOldParam).sDependencyLayers[d]
        },
{
    let ghost o = *pOldParam;
    if pOldParam.iTemporalLayerNum != n.iTemporalLayerNum {
        pOldParam.iTemporalLayerNum = n.iTemporalLayerNum;
        let mut d: usize = 0;
        while d < 4
            invariant
                0 <= d <= 4,
                forall|k: int| 0 <= k < 4 ==> #[trigger] pOldParam.sDependencyLayers[k] == if k < d {
                    SSpatialLayerInternal { iCodingIndex: 0, ..o.sDependencyLayers[k] }
                } else {
                    o.sDependencyLayers[k]
                },
                *pOldParam == (SWelsSvcCodingParam {
                    sDependencyLayers: pOldParam.sDependencyLayers,
                    iTemporalLayerNum: n.iTemporalLayerNum,
                    ..o
                }),
            decreases 4 - d,
        {
            pOldParam.sDependencyLayers[d].iCodingIndex = 0;
            d = d + 1;
        }
    }
    pOldParam.iComplexityMode = n.iComplexityMode;
    pOldParam.uiIntraPeriod = n.uiIntraPeriod;
    pOldParam.eSpsPpsIdStrategy = n.eSpsPpsIdStrategy;
    pOldParam.bPrefixNalAddingCtrl = n.bPrefixNalAddingCtrl;
    pOldParam.iNumRefFrame = n.iNumRefFrame;
    pOldParam.uiGopSize = n.uiGopSize;
    pOldParam.iDecompStages = n.iDecompStages;
    pOldParam.bEnableDenoise = n.bEnableDenoise;
    pOldParam.bEnableBackgroundDetection = n.bEnableBackgroundDetection;
    pOldParam.bEnableAdaptiveQuant = n.bEnableAdaptiveQuant;
    pOldParam.bEnableLongTermReference = n.bEnableLongTermReference;
    pOldParam.iLtrMarkPeriod = n.iLtrMarkPeriod;
    pOldParam.bEnableSSEI = n.bEnableSSEI;
    pOldParam.bSimulcastAVC = n.bSimulcastAVC;
    pOldParam.bEnableFrameCroppingFlag = n.bEnableFrameCroppingFlag;
    pOldParam.iLoopFilterDisableIdc = n.iLoopFilterDisableIdc;
    pOldParam.iLoopFilterAlphaC0Offset = n.iLoopFilterAlphaC0Offset;
    pOldParam.iLoopFilterBetaOffset = n.iLoopFilterBetaOffset;
    pOldParam.iRCMode = n.iRCMode;
    pOldParam.iTargetBitrate = n.iTargetBitrate;
    pOldParam.iPaddingFlag = n.iPaddingFlag;
}

/// The layers in use take up their rates, profile, QP and temporal
/// structure from `n`.
#[verifier::spinoff_prover]
fn take_up_layers(pOldParam: &mut SWelsSvcCodingParam, n: &SWelsSvcCodingParam, count: usize)
    requires
        1 <= count <= 4,
    ensures
        *final(pOldParam) == (SWelsSvcCodingParam {
            sSpatialLayers: final(pOldParam).sSpatialLayers,
            sDependencyLayers: final(pOldParam).sDependencyLayers,
            ..*old(pOldParam)
        }),
        forall|k: int| 0 <= k < 4 ==> #[trigger] final(pOldParam).sSpatialLayers[k] == if k < count {
            taken_up_layer(old(pOldParam).sSpatialLayers[k], n.sSpatialLayers[k])
        } else {
            old(pOldParam).sSpatialLayers[k]
        },
        forall|k: int| 0 <= k < 4 ==> #[trigger] final(pOldParam).sDependencyLayers[k] == if k < count {
            SSpatialLayerInternal {
                iTemporalResolution: n.sDependencyLayers[k].iTemporalResolution,
                iDecompositionStages: n.sDependencyLayers[k].iDecompositionStages,
                uiCodingIdx2TemporalId: n.sDependencyLayers[k].uiCodingIdx2TemporalId,
                ..old(pOldParam).sDependencyLayers[k]
            }
        } else {
            old(pOldParam).sDependencyLayers[k]
        },
{
    let ghost mid = *pOldParam;
    let mut d: usize = 0;
    while d < count
        invariant
            1 <= count <= 4,
            0 <= d <= count,
            forall|k: int| 0 <= k < 4 ==> #[trigger] pOldParam.sSpatialLayers[k] == if k < d {
                taken_up_layer(mid.sSpatialLayers[k], n.sSpatialLayers[k])
            } else {
                mid.sSpatialLayers[k]
            },
            forall|k: int| 0 <= k < 4 ==> #[trigger] pOldParam.sDependencyLayers[k] == if k < d {
                SSpatialLayerInternal {
                    iTemporalResolution: n.sDependencyLayers[k].iTemporalResolution,
                    iDecompositionStages: n.sDependencyLayers[k].iDecompositionStages,
                    uiCodingIdx2TemporalId: n.sDependencyLayers[k].uiCodingIdx2TemporalId,
                    ..mid.sDependencyLayers[k]
                }
            } else {
                mid.sDependencyLayers[k]
            },
            *pOldParam == (SWelsSvcCodingParam {
                sSpatialLayers: pOldParam.sSpatialLayers,
                sDependencyLayers: pOldParam.sDependencyLayers,
                ..mid
            }),
        decreases count - d,
    {
        pOldParam.sSpatialLayers[d].iSpatialBitrate = n.sSpatialLayers[d].iSpatialBitrate;
        pOldParam.sSpatialLayers[d].iMaxSpatialBitrate = n.sSpatialLayers[d].iMaxSpatialBitrate;
        pOldParam.sSpatialLayers[d].uiProfileIdc = n.sSpatialLayers[d].uiProfileIdc;
        pOldParam.sSpatialLayers[d].iDLayerQp = n.sSpatialLayers[d].iDLayerQp;
        pOldParam.sDependencyLayers[d].iTemporalResolution = n.sDependencyLayers[d].iTemporalResolution;
        pOldParam.sDependencyLayers[d].iDecompositionStages = n.sDependencyLayers[d].iDecompositionStages;
        pOldParam.sDependencyLayers[d].uiCodingIdx2TemporalId = n.sDependencyLayers[d].uiCodingIdx2TemporalId;
        d = d + 1;
    }
}

/// Decides whether the running encoder, configured with `pOldParam`, can take
/// up `pNewParam` (already validated) or must be rebuilt with it;
/// `kbFrameRateChanged[d]` says whether layer `d`'s ratio of output to input
/// frame rate, or of maximum to output frame rate, changed. A different
/// usage type is refused. Without a rebuild, the new configuration's
/// reference count and loop-filter settings are clipped to their ranges and
/// the running configuration takes up the settings that need none: see
/// [`taken_up`], [`taken_up_layer`] and [`taken_up_dependency`]. The answer
/// is the return code and whether a rebuild is needed; a rebuild changes
/// neither configuration here.
#[verifier::spinoff_prover]
#[verifier::rlimit(40)]
pub fn WelsEncoderParamAdjust(
    pOldParam: &mut SWelsSvcCodingParam,
    pNewParam: &mut SWelsSvcCodingParam,
    kbFrameRateChanged: &[bool; 4],
) -> (r: (i32, bool))
    requires
        old(pOldParam).iSpatialLayerNum <= MAX_DEPENDENCY_LAYER,
    ensures
        old(pOldParam).iUsageType != old(pNewParam).iUsageType ==> {
            &&& r == (ENC_RETURN_UNSUPPORTED_PARA, false)
            &&& *final(pOldParam) == *old(pOldParam)
            &&& *final(pNewParam) == *old(pNewParam)
        },
        old(pOldParam).iUsageType == old(pNewParam).iUsageType ==> {
            let o = *old(pOldParam);
            let n = clipped_param(*old(pNewParam));
            &&& r.0 == 0
            &&& r.1 == needs_reset(o, *old(pNewParam), kbFrameRateChanged@)
            &&& r.1 ==> *final(pOldParam) == o && *final(pNewParam) == *old(pNewParam)
            &&& !r.1 ==> {
                &&& *final(pNewParam) == n
                &&& *final(pOldParam) == (SWelsSvcCodingParam {
                    sSpatialLayers: final(pOldParam).sSpatialLayers,
                    sDependencyLayers: final(pOldParam).sDependencyLayers,
                    ..taken_up(o, n)
                })
                &&& forall|d: int| 0 <= d < 4 ==> #[trigger] final(pOldParam).sSpatialLayers[d] == if d
                    < adjusted_layer_count(o) {
                    taken_up_layer(o.sSpatialLayers[d], n.sSpatialLayers[d])
                } else {
                    o.sSpatialLayers[d]
                }
                &&& forall|d: int| 0 <= d < 4 ==> #[trigger] final(pOldParam).sDependencyLayers[d]
                    == taken_up_dependency(
                    o.sDependencyLayers[d],
                    n.sDependencyLayers[d],
                    d < adjusted_layer_count(o),
                    o.iTemporalLayerNum != n.iTemporalLayerNum,
                )
            }
        },
{
    let o = *pOldParam;
    let n0 = *pNewParam;
    if o.iUsageType != n0.iUsageType {
        return (ENC_RETURN_UNSUPPORTED_PARA, false);
    }
    let mut bNeedReset: bool = o.bSimulcastAVC != n0.bSimulcastAVC || o.iSpatialLayerNum != n0.iSpatialLayerNum
        || o.iPicWidth != n0.iPicWidth || o.iPicHeight != n0.iPicHeight || o.SUsedPicRect.iWidth
        != n0.SUsedPicRect.iWidth || o.SUsedPicRect.iHeight != n0.SUsedPicRect.iHeight
        || o.bEnableLongTermReference != n0.bEnableLongTermReference || o.iLTRRefNum != n0.iLTRRefNum
        || o.iMultipleThreadIdc != n0.iMultipleThreadIdc || o.bEnableBackgroundDetection
        != n0.bEnableBackgroundDetection || o.bEnableAdaptiveQuant != n0.bEnableAdaptiveQuant
        || o.eSpsPpsIdStrategy != n0.eSpsPpsIdStrategy;
    if n0.iMaxNumRefFrame > o.iMaxNumRefFrame || (o.iMaxNumRefFrame == 1 && o.iTemporalLayerNum == 1
        && n0.iTemporalLayerNum == 2) {
        bNeedReset = true;
    }
    let count: usize = if o.iSpatialLayerNum < 1 {
        1
    } else {
        o.iSpatialLayerNum as usize
    };
    if !bNeedReset {
        bNeedReset = layers_need_reset(&o, &n0, kbFrameRateChanged, count);
    }
    if bNeedReset {
        return (0, true);
    }
    let kiMaxRef: i32 = if n0.iUsageType == CAMERA_VIDEO_REAL_TIME {
        MAX_REFERENCE_PICTURE_COUNT_NUM_CAMERA
    } else {
        MAX_REFERENCE_PICTURE_COUNT_NUM_SCREEN
    };
    pNewParam.iNumRefFrame = WELS_CLIP3(n0.iNumRefFrame, MIN_REF_PIC_COUNT, kiMaxRef);
    pNewParam.iLoopFilterDisableIdc = WELS_CLIP3(n0.iLoopFilterDisableIdc, 0, 6);
    pNewParam.iLoopFilterAlphaC0Offset = WELS_CLIP3(n0.iLoopFilterAlphaC0Offset, -6, 6);
    pNewParam.iLoopFilterBetaOffset = WELS_CLIP3(n0.iLoopFilterBetaOffset, -6, 6);
    let n = *pNewParam;
    take_up_params(pOldParam, &n);
    let ghost mid = *pOldParam;
    take_up_layers(pOldParam, &n, count);
    proof {
        assert forall|d: int| 0 <= d < 4 implies #[trigger] pOldParam.sDependencyLayers[d]
            == taken_up_dependency(
            o.sDependencyLayers[d],
            n.sDependencyLayers[d],
            d < adjusted_layer_count(o),
            o.iTemporalLayerNum != n.iTemporalLayerNum,
        ) by {
            assert(mid.sDependencyLayers[d] == if o.iTemporalLayerNum != n.iTemporalLayerNum {
                SSpatialLayerInternal { iCodingIndex: 0, ..o.sDependencyLayers[d] }
            } else {
                o.sDependencyLayers[d]
            });
        }
    }
    (0, false)
}


/// The kind of an encoded frame.
#[derive(Clone, Copy, Debug, PartialEq, Eq, Structural)]
pub enum EVideoFrameType {
    videoFrameTypeInvalid,
    videoFrameTypeIDR,
    videoFrameTypeI,
    videoFrameTypeP,
    videoFrameTypeSkip,
    videoFrameTypeIPMixed,
}

/// A layer's statistics after one more input frame: a size change of a
/// layer that had a size counts as a resolution change, the new size is
/// kept, the frame is counted (and counted as skipped, as an IDR or I frame,
/// as carrying a long-term reference mark), its QP is the layer's average
/// QP, and its bytes add to the total.
pub open spec fn counted_statistics(
    s: SEncoderStatistics,
    w: i32,
    h: i32,
    t: EVideoFrameType,
    size: i32,
    ltr: bool,
    qp: u32,
) -> SEncoderStatistics {
    SEncoderStatistics {
        uiResolutionChangeTimes: if s.uiWidth != 0 && s.uiHeight != 0 && (s.uiWidth != w as u32 || s.uiHeight
            != h as u32) {
            (s.uiResolutionChangeTimes + 1) as u32
        } else {
            s.uiResolutionChangeTimes
        },
        uiWidth: w as u32,
        uiHeight: h as u32,
        uiInputFrameCount: (s.uiInputFrameCount + 1) as u32,
        uiSkippedFrameCount: if t == EVideoFrameType::videoFrameTypeSkip {
            (s.uiSkippedFrameCount + 1) as u32
        } else {
            s.uiSkippedFrameCount
        },
        uiAverageFrameQP: qp,
        uiIDRSentNum: if t == EVideoFrameType::videoFrameTypeIDR || t == EVideoFrameType::videoFrameTypeI {
            (s.uiIDRSentNum + 1) as u32
        } else {
            s.uiIDRSentNum
        },
        uiLTRSentNum: if ltr {
            (s.uiLTRSentNum + 1) as u32
        } else {
            s.uiLTRSentNum
        },
        iTotalEncodedBytes: (s.iTotalEncodedBytes + size) as u64,
        ..s
    }
}

/// Counting a frame counts it once as input, and never lets the skipped
/// frames outnumber the input frames.
pub proof fn law_statistics_count_each_frame_once(
    s: SEncoderStatistics,
    w: i32,
    h: i32,
    t: EVideoFrameType,
    size: i32,
    ltr: bool,
    qp: u32,
)
    requires
        s.uiSkippedFrameCount <= s.uiInputFrameCount < u32::MAX,
    ensures
        ({
            let s2 = counted_statistics(s, w, h, t, size, ltr, qp);
            &&& s2.uiInputFrameCount == s.uiInputFrameCount + 1
            &&& s2.uiSkippedFrameCount <= s2.uiInputFrameCount
            &&& s2.uiInputFrameCount - s2.uiSkippedFrameCount == s.uiInputFrameCount - s.uiSkippedFrameCount + if t
                == EVideoFrameType::videoFrameTypeSkip {
                0int
            } else {
                1int
            }
        }),
{
}

/// The counters of a layer can take one more frame: a non-negative size
/// that the byte total can hold, and room in every counter the frame
/// raises.
pub open spec fn statistics_update_ok(
    s: SEncoderStatistics,
    w: i32,
    h: i32,
    t: EVideoFrameType,
    size: i32,
    ltr: bool,
) -> bool {
    &&& 0 <= size
    &&& s.iTotalEncodedBytes + size <= u64::MAX
    &&& s.uiInputFrameCount < u32::MAX
    &&& s.uiSkippedFrameCount + (if t == EVideoFrameType::videoFrameTypeSkip {
        1int
    } else {
        0int
    }) <= s.uiInputFrameCount + 1
    &&& s.uiWidth != 0 && s.uiHeight != 0 && (s.uiWidth != w as u32 || s.uiHeight != h as u32)
        ==> s.uiResolutionChangeTimes < u32::MAX
    &&& t == EVideoFrameType::videoFrameTypeIDR || t == EVideoFrameType::videoFrameTypeI
        ==> s.uiIDRSentNum < u32::MAX
    &&& ltr ==> s.uiLTRSentNum < u32::MAX
}

/// Counts one more input frame in a layer's statistics: its actual size
/// `kiActualWidth` x `kiActualHeight`, its type, its `kiCurrentFrameSize`
/// bytes, whether it carries a long-term reference mark, and the layer's
/// average QP (see [`counted_statistics`]). Answers the number of frames
/// the layer has processed (input and not skipped), which the frame-speed
/// average runs over, as a 32-bit signed count. A counter that would pass
/// its range is left out.
pub fn UpdateLayerStatistics(
    pStatistics: &mut SEncoderStatistics,
    kiActualWidth: i32,
    kiActualHeight: i32,
    eFrameType: EVideoFrameType,
    kiCurrentFrameSize: i32,
    bLtrMarkingFlag: bool,
    uiAverageFrameQP: u32,
) -> (r: i32)
    requires
        statistics_update_ok(
            *old(pStatistics),
            kiActualWidth,
            kiActualHeight,
            eFrameType,
            kiCurrentFrameSize,
            bLtrMarkingFlag,
        ),
    ensures
        *final(pStatistics) == counted_statistics(
            *old(pStatistics),
            kiActualWidth,
            kiActualHeight,
            eFrameType,
            kiCurrentFrameSize,
            bLtrMarkingFlag,
            uiAverageFrameQP,
        ),
        r == (final(pStatistics).uiInputFrameCount - final(pStatistics).uiSkippedFrameCount) as i32,
{
    let w = kiActualWidth as u32;
    let h = kiActualHeight as u32;
    if pStatistics.uiWidth != 0 && pStatistics.uiHeight != 0 && (pStatistics.uiWidth != w
        || pStatistics.uiHeight != h) {
        pStatistics.uiResolutionChangeTimes = pStatistics.uiResolutionChangeTimes + 1;
    }
    pStatistics.uiWidth = w;
    pStatistics.uiHeight = h;
    let kbCurrentFrameSkipped = eFrameType == EVideoFrameType::videoFrameTypeSkip;
    pStatistics.uiInputFrameCount = pStatistics.uiInputFrameCount + 1;
    if kbCurrentFrameSkipped {
        pStatistics.uiSkippedFrameCount = pStatistics.uiSkippedFrameCount + 1;
    }
    let iProcessedFrameCount = (pStatistics.uiInputFrameCount - pStatistics.uiSkippedFrameCount) as i32;
    pStatistics.uiAverageFrameQP = uiAverageFrameQP;
    if eFrameType == EVideoFrameType::videoFrameTypeIDR || eFrameType == EVideoFrameType::videoFrameTypeI {
        pStatistics.uiIDRSentNum = pStatistics.uiIDRSentNum + 1;
    }
    if bLtrMarkingFlag {
        pStatistics.uiLTRSentNum = pStatistics.uiLTRSentNum + 1;
    }
    pStatistics.iTotalEncodedBytes = pStatistics.iTotalEncodedBytes + kiCurrentFrameSize as u64;
    iProcessedFrameCount
}


/// The layer type of a record that carries coded picture data.
pub const VIDEO_CODING_LAYER: u8 = 1;

/// How many layer records of a frame are read: `iLayerNum` within
/// `[0, 128]`, and all 128 when it lies outside.
pub open spec fn bs_layer_count(fbi: SFrameBSInfo) -> int {
    if fbi.iLayerNum < 0 || fbi.iLayerNum > 128 {
        128
    } else {
        fbi.iLayerNum as int
    }
}

/// The NAL units a layer record spans: its count, none when negative.
pub open spec fn nal_span(l: SLayerBSInfo) -> int {
    if l.iNalCount < 0 {
        0
    } else {
        l.iNalCount as int
    }
}

/// Where the NAL lengths of record `j` start: after those of the records
/// before it.
pub open spec fn nal_base(layers: Seq<SLayerBSInfo>, j: int) -> int
    decreases j,
{
    if j <= 0 {
        0
    } else {
        nal_base(layers, j - 1) + nal_span(layers[j - 1])
    }
}

/// The sum of `n` NAL lengths from `start`.
pub open spec fn nal_sum(nal: Seq<i32>, start: int, n: int) -> int
    decreases n,
{
    if n <= 0 {
        0
    } else {
        nal_sum(nal, start, n - 1) + nal[start + n - 1]
    }
}

/// A record of coded picture data of spatial layer `d`.
pub open spec fn codes_layer(l: SLayerBSInfo, d: int) -> bool {
    l.uiLayerType == VIDEO_CODING_LAYER && l.uiSpatialId as int == d
}

/// The bytes of spatial layer `d` among the first `j` records: the NAL
/// lengths of each of its coding records whose lengths are all there.
pub open spec fn layer_bytes(fbi: SFrameBSInfo, nal: Seq<i32>, d: int, j: int) -> int
    decreases j,
{
    if j <= 0 {
        0
    } else {
        let l = fbi.sLayerInfo[j - 1];
        let b = nal_base(fbi.sLayerInfo@, j - 1);
        layer_bytes(fbi, nal, d, j - 1) + if codes_layer(l, d) && b + nal_span(l) <= nal.len() {
            nal_sum(nal, b, nal_span(l))
        } else {
            0
        }
    }
}

/// Spatial layer `d` has a coding record among the records read.
pub open spec fn layer_coded_in_frame(fbi: SFrameBSInfo, d: int) -> bool {
    exists|k: int| 0 <= k < bs_layer_count(fbi) && #[trigger] codes_layer(fbi.sLayerInfo[k], d)
}

/// The type spatial layer `d`'s frame counts as: the frame's type when the
/// layer has coding records, a skipped frame otherwise.
pub open spec fn layer_frame_type(fbi: SFrameBSInfo, d: int) -> EVideoFrameType {
    if layer_coded_in_frame(fbi, d) {
        fbi.eFrameType
    } else {
        EVideoFrameType::videoFrameTypeSkip
    }
}

/// The bytes spatial layer `d` takes in the frame.
pub open spec fn layer_frame_size(fbi: SFrameBSInfo, nal: Seq<i32>, d: int) -> int {
    layer_bytes(fbi, nal, d, bs_layer_count(fbi))
}

proof fn lemma_nal_sum_grows(nal: Seq<i32>, start: int, m: int, n: int)
    requires
        0 <= m <= n,
        0 <= start,
        start + n <= nal.len(),
        forall|i: int| 0 <= i < nal.len() ==> 0 <= #[trigger] nal[i],
    ensures
        0 <= nal_sum(nal, start, m) <= nal_sum(nal, start, n),
    decreases n,
{
    if n > m {
        lemma_nal_sum_grows(nal, start, m, n - 1);
        assert(0 <= nal[start + n - 1]);
    } else if m > 0 {
        lemma_nal_sum_grows(nal, start, m - 1, m - 1);
        assert(0 <= nal[start + m - 1]);
    }
}

proof fn lemma_nal_base_grows(layers: Seq<SLayerBSInfo>, j: int)
    ensures
        0 <= nal_base(layers, j) <= 0x8000_0000 * (if j < 0 { 0 } else { j }),
    decreases j,
{
    if j > 0 {
        lemma_nal_base_grows(layers, j - 1);
    }
}

proof fn lemma_layer_bytes_grows(fbi: SFrameBSInfo, nal: Seq<i32>, d: int, m: int, n: int)
    requires
        0 <= m <= n,
        forall|i: int| 0 <= i < nal.len() ==> 0 <= #[trigger] nal[i],
    ensures
        0 <= layer_bytes(fbi, nal, d, m) <= layer_bytes(fbi, nal, d, n),
    decreases n,
{
    if n > 0 {
        let l = fbi.sLayerInfo[n - 1];
        let b = nal_base(fbi.sLayerInfo@, n - 1);
        lemma_nal_base_grows(fbi.sLayerInfo@, n - 1);
        if codes_layer(l, d) && b + nal_span(l) <= nal.len() {
            lemma_nal_sum_grows(nal, b, 0, nal_span(l));
        }
        if n > m {
            lemma_layer_bytes_grows(fbi, nal, d, m, n - 1);
        } else {
            lemma_layer_bytes_grows(fbi, nal, d, m - 1, n - 1);
        }
    }
}

/// The sum of `n` NAL lengths from `start`.
fn nal_bytes(kpNalLen: &Vec<i32>, start: usize, n: usize) -> (r: i32)
    requires
        start + n <= kpNalLen.len(),
        forall|i: int| 0 <= i < kpNalLen@.len() ==> 0 <= #[trigger] kpNalLen@[i],
        nal_sum(kpNalLen@, start as int, n as int) <= i32::MAX,
    ensures
        r == nal_sum(kpNalLen@, start as int, n as int),
{
    let mut k: usize = 0;
    let mut sum: i32 = 0;
    while k < n
        invariant
            start + n <= kpNalLen.len(),
            forall|i: int| 0 <= i < kpNalLen@.len() ==> 0 <= #[trigger] kpNalLen@[i],
            nal_sum(kpNalLen@, start as int, n as int) <= i32::MAX,
            0 <= k <= n,
            sum == nal_sum(kpNalLen@, start as int, k as int),
        decreases n - k,
    {
        proof {
            lemma_nal_sum_grows(kpNalLen@, start as int, (k + 1) as int, n as int);
        }
        sum = sum + kpNalLen[start + k];
        k = k + 1;
    }
    sum
}

/// The type spatial layer `iDid`'s frame counts as and the bytes it takes,
/// from the frame's layer records and NAL lengths.
fn layer_frame_type_and_size(pBsInfo: &SFrameBSInfo, kpNalLen: &Vec<i32>, iDid: i32) -> (r: (EVideoFrameType, i32))
    requires
        forall|i: int| 0 <= i < kpNalLen@.len() ==> 0 <= #[trigger] kpNalLen@[i],
        layer_frame_size(*pBsInfo, kpNalLen@, iDid as int) <= i32::MAX,
    ensures
        r.0 == layer_frame_type(*pBsInfo, iDid as int),
        r.1 == layer_frame_size(*pBsInfo, kpNalLen@, iDid as int),
{
    let ghost fbi = *pBsInfo;
    let ghost d = iDid as int;
    let n: usize = if pBsInfo.iLayerNum < 0 || pBsInfo.iLayerNum > 128 {
        128
    } else {
        pBsInfo.iLayerNum as usize
    };
    let len = kpNalLen.len() as u64;
    let mut eFrameType = EVideoFrameType::videoFrameTypeSkip;
    let mut size: i32 = 0;
    let mut base: u64 = 0;
    let mut j: usize = 0;
    while j < n
        invariant
            n == bs_layer_count(fbi),
            fbi == *pBsInfo,
            d == iDid,
            len == kpNalLen@.len(),
            forall|i: int| 0 <= i < kpNalLen@.len() ==> 0 <= #[trigger] kpNalLen@[i],
            layer_frame_size(fbi, kpNalLen@, d) <= i32::MAX,
            0 <= j <= n,
            base == nal_base(fbi.sLayerInfo@, j as int),
            size == layer_bytes(fbi, kpNalLen@, d, j as int),
            eFrameType == if exists|k: int| 0 <= k < j && #[trigger] codes_layer(fbi.sLayerInfo[k], d) {
                fbi.eFrameType
            } else {
                EVideoFrameType::videoFrameTypeSkip
            },
        decreases n - j,
    {
        let l = pBsInfo.sLayerInfo[j];
        let count: u64 = if l.iNalCount < 0 {
            0
        } else {
            l.iNalCount as u64
        };
        proof {
            lemma_nal_base_grows(fbi.sLayerInfo@, j as int);
            lemma_layer_bytes_grows(fbi, kpNalLen@, d, (j + 1) as int, n as int);
            lemma_layer_bytes_grows(fbi, kpNalLen@, d, j as int, (j + 1) as int);
        }
        if l.uiLayerType == VIDEO_CODING_LAYER && l.uiSpatialId as i32 == iDid {
            eFrameType = pBsInfo.eFrameType;
            if base + count <= len {
                proof {
                    assert(codes_layer(fbi.sLayerInfo[j as int], d));
                    assert(nal_span(l) == count);
                    assert(layer_bytes(fbi, kpNalLen@, d, (j + 1) as int) == layer_bytes(fbi, kpNalLen@, d, j as int)
                        + nal_sum(kpNalLen@, base as int, count as int));
                }
                let add = nal_bytes(kpNalLen, base as usize, count as usize);
                size = size + add;
            }
            proof {
                assert(codes_layer(fbi.sLayerInfo[j as int], d));
            }
        } else {
            proof {
                assert(!codes_layer(fbi.sLayerInfo[j as int], d));
                assert((exists|k: int| 0 <= k < j + 1 && #[trigger] codes_layer(fbi.sLayerInfo[k], d))
                    == (exists|k: int| 0 <= k < j && #[trigger] codes_layer(fbi.sLayerInfo[k], d)));
            }
        }
        base = base + count;
        j = j + 1;
    }
    (eFrameType, size)
}

/// Counts a coded frame in the statistics of every spatial layer in use:
/// each layer's frame counts as skipped when the frame has no coding record
/// of that layer and with the frame's type otherwise, takes the bytes of
/// that layer's NAL units (`kpNalLen`, in record order), the layer's actual
/// size, the long-term reference mark and the layer's average QP (see
/// [`counted_statistics`]). The frame's time stamp becomes the last one.
/// Answers each layer's processed frame count.
pub fn UpdateStatistics(
    pStatistics: &mut [SEncoderStatistics; 4],
    pLastTimestamp: &mut i64,
    pParam: &SWelsSvcCodingParam,
    pBsInfo: &SFrameBSInfo,
    kpNalLen: &Vec<i32>,
    bLtrMarkingFlag: bool,
    kuiAverageFrameQP: &[u32; 4],
) -> (r: [i32; 4])
    requires
        pParam.iSpatialLayerNum <= MAX_DEPENDENCY_LAYER,
        forall|i: int| 0 <= i < kpNalLen@.len() ==> 0 <= #[trigger] kpNalLen@[i],
        forall|d: int| 0 <= d < pParam.iSpatialLayerNum ==> #[trigger] layer_frame_size(*pBsInfo, kpNalLen@, d) <= i32::MAX,
        forall|d: int|
            0 <= d < pParam.iSpatialLayerNum ==> statistics_update_ok(
                #[trigger] old(pStatistics)[d],
                pParam.sDependencyLayers[d].iActualWidth,
                pParam.sDependencyLayers[d].iActualHeight,
                layer_frame_type(*pBsInfo, d),
                layer_frame_size(*pBsInfo, kpNalLen@, d) as i32,
                bLtrMarkingFlag,
            ),
    ensures
        *final(pLastTimestamp) == pBsInfo.uiTimeStamp,
        forall|d: int|
            0 <= d < 4 ==> #[trigger] final(pStatistics)[d] == if d < pParam.iSpatialLayerNum {
                counted_statistics(
                    old(pStatistics)[d],
                    pParam.sDependencyLayers[d].iActualWidth,
                    pParam.sDependencyLayers[d].iActualHeight,
                    layer_frame_type(*pBsInfo, d),
                    layer_frame_size(*pBsInfo, kpNalLen@, d) as i32,
                    bLtrMarkingFlag,
                    kuiAverageFrameQP[d],
                )
            } else {
                old(pStatistics)[d]
            },
        forall|d: int|
            0 <= d < pParam.iSpatialLayerNum ==> #[trigger] r[d] == (final(pStatistics)[d].uiInputFrameCount
                - final(pStatistics)[d].uiSkippedFrameCount) as i32,
{
    *pLastTimestamp = pBsInfo.uiTimeStamp;
    let mut r: [i32; 4] = [0i32, 0, 0, 0];
    let num: usize = if pParam.iSpatialLayerNum < 0 {
        0
    } else {
        pParam.iSpatialLayerNum as usize
    };
    let mut d: usize = 0;
    while d < num
        invariant
            num <= 4,
            num == 0 || num == pParam.iSpatialLayerNum,
            0 <= d <= num,
            forall|i: int| 0 <= i < kpNalLen@.len() ==> 0 <= #[trigger] kpNalLen@[i],
            forall|e: int| 0 <= e < pParam.iSpatialLayerNum ==> #[trigger] layer_frame_size(*pBsInfo, kpNalLen@, e) <= i32::MAX,
            forall|e: int|
                0 <= e < pParam.iSpatialLayerNum ==> statistics_update_ok(
                    #[trigger] old(pStatistics)[e],
                    pParam.sDependencyLayers[e].iActualWidth,
                    pParam.sDependencyLayers[e].iActualHeight,
                    layer_frame_type(*pBsInfo, e),
                    layer_frame_size(*pBsInfo, kpNalLen@, e) as i32,
                    bLtrMarkingFlag,
                ),
            forall|e: int|
                0 <= e < 4 ==> #[trigger] pStatistics[e] == if e < d {
                    counted_statistics(
                        old(pStatistics)[e],
                        pParam.sDependencyLayers[e].iActualWidth,
                        pParam.sDependencyLayers[e].iActualHeight,
                        layer_frame_type(*pBsInfo, e),
                        layer_frame_size(*pBsInfo, kpNalLen@, e) as i32,
                        bLtrMarkingFlag,
                        kuiAverageFrameQP[e],
                    )
                } else {
                    old(pStatistics)[e]
                },
            forall|e: int| 0 <= e < d ==> #[trigger] r[e] == (pStatistics[e].uiInputFrameCount
                - pStatistics[e].uiSkippedFrameCount) as i32,
        decreases num - d,
    {
        let (eFrameType, kiCurrentFrameSize) = layer_frame_type_and_size(pBsInfo, kpNalLen, d as i32);
        let ghost before = *pStatistics;
        let ghost rb = r;
        let mut st = pStatistics[d];
        let n = UpdateLayerStatistics(
            &mut st,
            pParam.sDependencyLayers[d].iActualWidth,
            pParam.sDependencyLayers[d].iActualHeight,
            eFrameType,
            kiCurrentFrameSize,
            bLtrMarkingFlag,
            kuiAverageFrameQP[d],
        );
        pStatistics[d] = st;
        r[d] = n;
        proof {
            assert(pStatistics@ =~= before@.update(d as int, st));
            assert(r@ =~= rb@.update(d as int, n));
        }
        d = d + 1;
    }
    r
}

} // verus!
