//! The patch catalog for the one known executable build: translating
//! validated configuration values into the ordered list of patch
//! operations, and running that list against the image with fail-fast
//! reporting.

use vstd::prelude::*;

verus! {

use crate::encode::{dec_digits, encode_bounded_decimal, le32, le32_bytes,
    lemma_dec_digits_len_below_1000};
use crate::engine::{apply_batch, apply_writes, find_last, has_match, is_last_match, mask_hi,
    mask_lo, or16_at, overwrite, write_at, writes_in_bounds, writes_view, PatchError};

/// Offset of the two-byte characteristics field in the executable header.
pub const LARGE_ADDRESS_OFFSET: usize = 0x126;

/// The large-address-aware bit of the characteristics field.
pub const LARGE_ADDRESS_MASK: u16 = 0x20;

/// Offset of the farclip (terrain render distance) maximum value.
pub const FARCLIP_OFFSET: usize = 0x40FED8;

/// Offset of the field-of-view value.
pub const FOV_OFFSET: usize = 0x4089B4;

/// Offset of the frilldistance (grass render distance) value.
pub const FRILLDISTANCE_OFFSET: usize = 0x467958;

/// Offset of the byte the sound-in-background patch rewrites.
pub const SOUND_IN_BACKGROUND_OFFSET: usize = 0x3A4869;

/// The byte the sound-in-background patch writes.
pub const SOUND_IN_BACKGROUND_BYTE: u8 = 0x27;

/// Offset of the NUL-terminated sound channel count text.
pub const SOUND_CHANNELS_OFFSET: usize = 0x435D38;

/// Byte budget of the sound channel count text, terminator included.
pub const SOUND_CHANNELS_BUDGET: usize = 4;

/// Smallest accepted sound channel count.
pub const SOUND_CHANNELS_MIN: i32 = 1;

/// Largest accepted sound channel count.
pub const SOUND_CHANNELS_MAX: i32 = 998;

/// Offsets of the two branch bytes the quickloot patch rewrites.
pub const QUICKLOOT_OFFSET_A: usize = 0xC1ECF;

/// Second branch byte offset of the quickloot patch.
pub const QUICKLOOT_OFFSET_B: usize = 0xC2B25;

/// The branch byte the quickloot patch writes at both offsets.
pub const QUICKLOOT_BYTE: u8 = 0x75;

/// Offset of the nameplate distance value.
pub const NAMEPLATE_OFFSET: usize = 0x40C448;

/// Offset of the camera distance limit value.
pub const MAX_CAMERA_OFFSET: usize = 0x4089A4;

/// Offset of the first instruction range of the camera skip fix.
pub const CAMERA_SKIP_OFFSET_1: usize = 0x2CCD0;

/// Offset of the second instruction range of the camera skip fix.
pub const CAMERA_SKIP_OFFSET_2: usize = 0x2D326;

/// Offset of the third instruction range of the camera skip fix.
pub const CAMERA_SKIP_OFFSET_3: usize = 0x2D334;

/// Offset of the fourth instruction range of the camera skip fix.
pub const CAMERA_SKIP_OFFSET_4: usize = 0x355D15;

/// Offset of the fifth instruction range of the camera skip fix.
pub const CAMERA_SKIP_OFFSET_5: usize = 0x355DDC;

/// Validated configuration for one patch run: per-patch enablement
/// switches and the parameter values to encode. Each `*_bits` field holds
/// the exact 32-bit pattern whose four little-endian bytes the patch
/// writes.
pub struct PatchConfig {
    /// Mark the executable large address aware in its header.
    pub large_address_aware: bool,
    /// Raise the farclip (terrain render distance) maximum.
    pub farclip: bool,
    /// Bit pattern the farclip patch writes.
    pub farclip_bits: u32,
    /// Widen the field of view.
    pub fov: bool,
    /// Bit pattern the field-of-view patch writes.
    pub fov_bits: u32,
    /// Raise the frilldistance (grass render distance).
    pub frilldistance: bool,
    /// Bit pattern the frilldistance patch writes.
    pub frilldistance_bits: u32,
    /// Keep sound playing while the game runs in the background.
    pub sound_in_background: bool,
    /// Change the default sound channel count.
    pub sound_channels: bool,
    /// The sound channel count to encode as NUL-terminated decimal text.
    pub sound_channel_count: i32,
    /// Make quick looting the default.
    pub quickloot: bool,
    /// Change the nameplate visibility distance.
    pub nameplate_distance: bool,
    /// Bit pattern the nameplate distance patch writes.
    pub nameplate_bits: u32,
    /// Raise the camera distance limit: the bit pattern to write, if set.
    pub max_camera_bits: Option<u32>,
    /// Fix the camera sometimes skipping to a random direction when
    /// rotated.
    pub camera_skip_fix: bool,
}

/// Why a configuration was rejected before any patch was built.
#[derive(Clone, Copy, Debug, PartialEq, Eq, Structural)]
pub enum ConfigError {
    /// The sound channel count lies outside the accepted range.
    SoundChannelsOutOfRange,
}

/// Which catalog entry a patch belongs to, for per-patch reporting.
#[derive(Clone, Copy, Debug, PartialEq, Eq, Structural)]
pub enum PatchId {
    LargeAddressAware,
    Farclip,
    Fov,
    Frilldistance,
    SoundInBackground,
    SoundChannels,
    Quickloot,
    NameplateDistance,
    MaxCameraDistance,
    CameraSkipFix,
}

/// A single requested modification of the image.
pub enum PatchOp {
    /// Overwrite `bytes.len()` bytes starting at `offset`.
    OffsetWrite { offset: usize, bytes: Vec<u8> },
    /// OR `mask` into the two-byte little-endian field at `offset`.
    OrField16 { offset: usize, mask: u16 },
    /// Apply several disjoint offset-writes as one atomic unit.
    MultiWrite { writes: Vec<(usize, Vec<u8>)> },
    /// Overwrite the last occurrence of `pattern` with `replacement`.
    FindReplace { pattern: Vec<u8>, replacement: Vec<u8> },
}

/// One catalog entry: a named, concrete patch operation.
pub struct Patch {
    pub id: PatchId,
    pub op: PatchOp,
}

/// The mathematical content of a patch operation.
pub enum OpModel {
    OffsetWrite { offset: int, bytes: Seq<u8> },
    OrField16 { offset: int, mask: u16 },
    MultiWrite { writes: Seq<(int, Seq<u8>)> },
    FindReplace { pattern: Seq<u8>, replacement: Seq<u8> },
}

impl PatchOp {
    /// The mathematical content of this operation.
    pub open spec fn model(&self) -> OpModel {
        match self {
            PatchOp::OffsetWrite { offset, bytes } => OpModel::OffsetWrite {
                offset: *offset as int,
                bytes: bytes@,
            },
            PatchOp::OrField16 { offset, mask } => OpModel::OrField16 {
                offset: *offset as int,
                mask: *mask,
            },
            PatchOp::MultiWrite { writes } => OpModel::MultiWrite { writes: writes_view(writes@) },
            PatchOp::FindReplace { pattern, replacement } => OpModel::FindReplace {
                pattern: pattern@,
                replacement: replacement@,
            },
        }
    }
}

/// The entry list a concrete catalog stands for.
pub open spec fn entries_model(cat: Seq<Patch>) -> Seq<(PatchId, OpModel)> {
    Seq::new(cat.len(), |i: int| (cat[i].id, cat[i].op.model()))
}

/// The position of the last occurrence of `pat` in `img`.
pub open spec fn last_match_idx(img: Seq<u8>, pat: Seq<u8>) -> int {
    choose|i: int| is_last_match(img, pat, i)
}

/// What applying `op` to the image `img` yields: the patched image, or the
/// error that the attempt reports while leaving the image unchanged.
pub open spec fn op_outcome(img: Seq<u8>, op: OpModel) -> Result<Seq<u8>, PatchError> {
    match op {
        OpModel::OffsetWrite { offset, bytes } => if offset + bytes.len() <= img.len() {
            Ok(overwrite(img, offset, bytes))
        } else {
            Err(PatchError::OutOfRange)
        },
        OpModel::OrField16 { offset, mask } => if offset + 2 <= img.len() {
            Ok(
                overwrite(
                    img,
                    offset,
                    seq![img[offset] | mask_lo(mask), img[offset + 1] | mask_hi(mask)],
                ),
            )
        } else {
            Err(PatchError::OutOfRange)
        },
        OpModel::MultiWrite { writes } => if writes_in_bounds(img, writes) {
            Ok(apply_writes(img, writes))
        } else {
            Err(PatchError::OutOfRange)
        },
        OpModel::FindReplace { pattern, replacement } => if pattern.len() <= img.len()
            && replacement.len() <= img.len() && has_match(img, pattern) {
            if last_match_idx(img, pattern) + replacement.len() <= img.len() {
                Ok(overwrite(img, last_match_idx(img, pattern), replacement))
            } else {
                Err(PatchError::OutOfRange)
            }
        } else {
            Err(PatchError::NotFound)
        },
    }
}

/// The five instruction-byte edits of the camera skip glitch fix, as the
/// planned writes of one atomic unit.
#[verifier::opaque]
pub open spec fn camera_skip_model() -> Seq<(int, Seq<u8>)> {
    seq![
        (
            CAMERA_SKIP_OFFSET_1 as int,
            seq![
                0x55u8, 0x8b, 0x05, 0x48, 0x4e, 0x88, 0x00, 0x8b, 0x0d, 0x44, 0x4e, 0x88, 0x00,
                0xe9, 0x33, 0x90, 0x32, 0x00, 0x83, 0xc0, 0x32, 0x83, 0xc1, 0x32, 0x3b, 0x0d,
                0xa8, 0xeb, 0xc4, 0x00, 0x7e, 0x03, 0x83, 0xe9, 0x01, 0x3b, 0x05, 0xac, 0xeb,
                0xc4, 0x00, 0x7e, 0x03, 0x83, 0xe8, 0x01, 0x83, 0xe9, 0x32, 0x83, 0xe8, 0x32,
                0x89, 0x05, 0x48, 0x4e, 0x88, 0x00, 0x89, 0x0d, 0x44, 0x4e, 0x88, 0x00, 0x5d,
                0xeb, 0x0d,
            ],
        ),
        (CAMERA_SKIP_OFFSET_2 as int, seq![0xe9u8, 0xb1, 0x8a, 0x32, 0x00]),
        (CAMERA_SKIP_OFFSET_3 as int, seq![0x8bu8, 0x35, 0x48, 0x4e, 0x88, 0x00]),
        (
            CAMERA_SKIP_OFFSET_4 as int,
            seq![
                0x83u8, 0xf8, 0x32, 0x7d, 0x03, 0x83, 0xc0, 0x01, 0x83, 0xf9, 0x32, 0x7d, 0x03,
                0x83, 0xc1, 0x01, 0xe9, 0xb8, 0x6f, 0xcd, 0xff,
            ],
        ),
        (
            CAMERA_SKIP_OFFSET_5 as int,
            seq![
                0x8du8, 0x4d, 0xf0, 0x51, 0xff, 0x35, 0x00, 0x4e, 0x88, 0x00, 0xff, 0x15, 0x50,
                0xf6, 0x7f, 0x00, 0x8b, 0x45, 0xf0, 0x8b, 0x15, 0x44, 0x4e, 0x88, 0x00, 0xe9,
                0x35, 0x75, 0xcd, 0xff,
            ],
        ),
    ]
}

/// The planned writes of the quickloot patch: two branch bytes rewritten
/// as one atomic unit.
pub open spec fn quickloot_model() -> Seq<(int, Seq<u8>)> {
    seq![
        (QUICKLOOT_OFFSET_A as int, seq![QUICKLOOT_BYTE]),
        (QUICKLOOT_OFFSET_B as int, seq![QUICKLOOT_BYTE]),
    ]
}

/// Builds the camera skip fix write list.
fn camera_skip_writes() -> (r: Vec<(usize, Vec<u8>)>)
    ensures
        writes_view(r@) == camera_skip_model(),
{
    let w1: Vec<u8> = vec![
        0x55u8, 0x8b, 0x05, 0x48, 0x4e, 0x88, 0x00, 0x8b, 0x0d, 0x44, 0x4e, 0x88, 0x00, 0xe9,
        0x33, 0x90, 0x32, 0x00, 0x83, 0xc0, 0x32, 0x83, 0xc1, 0x32, 0x3b, 0x0d, 0xa8, 0xeb, 0xc4,
        0x00, 0x7e, 0x03, 0x83, 0xe9, 0x01, 0x3b, 0x05, 0xac, 0xeb, 0xc4, 0x00, 0x7e, 0x03, 0x83,
        0xe8, 0x01, 0x83, 0xe9, 0x32, 0x83, 0xe8, 0x32, 0x89, 0x05, 0x48, 0x4e, 0x88, 0x00, 0x89,
        0x0d, 0x44, 0x4e, 0x88, 0x00, 0x5d, 0xeb, 0x0d,
    ];
    let w2: Vec<u8> = vec![0xe9u8, 0xb1, 0x8a, 0x32, 0x00];
    let w3: Vec<u8> = vec![0x8bu8, 0x35, 0x48, 0x4e, 0x88, 0x00];
    let w4: Vec<u8> = vec![
        0x83u8, 0xf8, 0x32, 0x7d, 0x03, 0x83, 0xc0, 0x01, 0x83, 0xf9, 0x32, 0x7d, 0x03, 0x83,
        0xc1, 0x01, 0xe9, 0xb8, 0x6f, 0xcd, 0xff,
    ];
    let w5: Vec<u8> = vec![
        0x8du8, 0x4d, 0xf0, 0x51, 0xff, 0x35, 0x00, 0x4e, 0x88, 0x00, 0xff, 0x15, 0x50, 0xf6,
        0x7f, 0x00, 0x8b, 0x45, 0xf0, 0x8b, 0x15, 0x44, 0x4e, 0x88, 0x00, 0xe9, 0x35, 0x75, 0xcd,
        0xff,
    ];
    let mut r: Vec<(usize, Vec<u8>)> = Vec::new();
    r.push((CAMERA_SKIP_OFFSET_1, w1));
    r.push((CAMERA_SKIP_OFFSET_2, w2));
    r.push((CAMERA_SKIP_OFFSET_3, w3));
    r.push((CAMERA_SKIP_OFFSET_4, w4));
    r.push((CAMERA_SKIP_OFFSET_5, w5));
    proof {
        reveal(camera_skip_model);
        assert(writes_view(r@) =~~= camera_skip_model());
    }
    r
}

/// The catalog entry of the large-address-aware patch, when enabled.
pub open spec fn seg_large_address(cfg: PatchConfig) -> Seq<(PatchId, OpModel)> {
    if cfg.large_address_aware {
        seq![
            (
                PatchId::LargeAddressAware,
                OpModel::OrField16 {
                    offset: LARGE_ADDRESS_OFFSET as int,
                    mask: LARGE_ADDRESS_MASK,
                },
            ),
        ]
    } else {
        Seq::empty()
    }
}

/// The catalog entry of the farclip patch, when enabled.
pub open spec fn seg_farclip(cfg: PatchConfig) -> Seq<(PatchId, OpModel)> {
    if cfg.farclip {
        seq![
            (
                PatchId::Farclip,
                OpModel::OffsetWrite {
                    offset: FARCLIP_OFFSET as int,
                    bytes: le32(cfg.farclip_bits),
                },
            ),
        ]
    } else {
        Seq::empty()
    }
}

/// The catalog entry of the field-of-view patch, when enabled.
pub open spec fn seg_fov(cfg: PatchConfig) -> Seq<(PatchId, OpModel)> {
    if cfg.fov {
        seq![
            (PatchId::Fov, OpModel::OffsetWrite { offset: FOV_OFFSET as int, bytes: le32(cfg.fov_bits) }),
        ]
    } else {
        Seq::empty()
    }
}

/// The catalog entry of the frilldistance patch, when enabled.
pub open spec fn seg_frilldistance(cfg: PatchConfig) -> Seq<(PatchId, OpModel)> {
    if cfg.frilldistance {
        seq![
            (
                PatchId::Frilldistance,
                OpModel::OffsetWrite {
                    offset: FRILLDISTANCE_OFFSET as int,
                    bytes: le32(cfg.frilldistance_bits),
                },
            ),
        ]
    } else {
        Seq::empty()
    }
}

/// The catalog entry of the sound-in-background patch, when enabled.
pub open spec fn seg_sound_in_background(cfg: PatchConfig) -> Seq<(PatchId, OpModel)> {
    if cfg.sound_in_background {
        seq![
            (
                PatchId::SoundInBackground,
                OpModel::OffsetWrite {
                    offset: SOUND_IN_BACKGROUND_OFFSET as int,
                    bytes: seq![SOUND_IN_BACKGROUND_BYTE],
                },
            ),
        ]
    } else {
        Seq::empty()
    }
}

/// The catalog entry of the sound channel count patch, when enabled: the
/// count as NUL-terminated ASCII decimal text.
pub open spec fn seg_sound_channels(cfg: PatchConfig) -> Seq<(PatchId, OpModel)> {
    if cfg.sound_channels {
        seq![
            (
                PatchId::SoundChannels,
                OpModel::OffsetWrite {
                    offset: SOUND_CHANNELS_OFFSET as int,
                    bytes: dec_digits(cfg.sound_channel_count as nat).push(0),
                },
            ),
        ]
    } else {
        Seq::empty()
    }
}

/// The catalog entry of the quickloot patch, when enabled.
pub open spec fn seg_quickloot(cfg: PatchConfig) -> Seq<(PatchId, OpModel)> {
    if cfg.quickloot {
        seq![(PatchId::Quickloot, OpModel::MultiWrite { writes: quickloot_model() })]
    } else {
        Seq::empty()
    }
}

/// The catalog entry of the nameplate distance patch, when enabled.
pub open spec fn seg_nameplate(cfg: PatchConfig) -> Seq<(PatchId, OpModel)> {
    if cfg.nameplate_distance {
        seq![
            (
                PatchId::NameplateDistance,
                OpModel::OffsetWrite {
                    offset: NAMEPLATE_OFFSET as int,
                    bytes: le32(cfg.nameplate_bits),
                },
            ),
        ]
    } else {
        Seq::empty()
    }
}

/// The catalog entry of the camera distance limit patch, when set.
pub open spec fn seg_max_camera(cfg: PatchConfig) -> Seq<(PatchId, OpModel)> {
    match cfg.max_camera_bits {
        Some(bits) => seq![
            (
                PatchId::MaxCameraDistance,
                OpModel::OffsetWrite { offset: MAX_CAMERA_OFFSET as int, bytes: le32(bits) },
            ),
        ],
        None => Seq::empty(),
    }
}

/// The catalog entry of the camera skip glitch fix, when enabled.
pub open spec fn seg_camera_skip(cfg: PatchConfig) -> Seq<(PatchId, OpModel)> {
    if cfg.camera_skip_fix {
        seq![(PatchId::CameraSkipFix, OpModel::MultiWrite { writes: camera_skip_model() })]
    } else {
        Seq::empty()
    }
}

/// The catalog entries a configuration asks for, in application order.
pub open spec fn catalog_model(cfg: PatchConfig) -> Seq<(PatchId, OpModel)> {
    seg_large_address(cfg) + seg_farclip(cfg) + seg_fov(cfg) + seg_frilldistance(cfg)
        + seg_sound_in_background(cfg) + seg_sound_channels(cfg) + seg_quickloot(cfg)
        + seg_nameplate(cfg) + seg_max_camera(cfg) + seg_camera_skip(cfg)
}

/// Appends the large-address-aware entry when the configuration asks
/// for it.
fn add_large_address(cat: &mut Vec<Patch>, cfg: &PatchConfig)
    ensures
        entries_model(final(cat)@) == entries_model(old(cat)@) + seg_large_address(*cfg),
        entries_shaped(*cfg, entries_model(old(cat)@)) ==> entries_shaped(
            *cfg,
            entries_model(final(cat)@),
        ),
{
    let ghost e0 = entries_model(cat@);
    if cfg.large_address_aware {
        cat.push(
            Patch {
                id: PatchId::LargeAddressAware,
                op: PatchOp::OrField16 { offset: LARGE_ADDRESS_OFFSET, mask: LARGE_ADDRESS_MASK },
            },
        );
    }
    proof {
        assert(entries_model(cat@) =~= e0 + seg_large_address(*cfg));
        if entries_shaped(*cfg, e0) {
            assert forall|i: int| 0 <= i < entries_model(cat@).len() implies entry_shape(
                *cfg,
                entries_model(cat@)[i],
            ) by {
                if i < e0.len() {
                    assert(entries_model(cat@)[i] == e0[i]);
                } else {
                    assert(entries_model(cat@)[i] == seg_large_address(*cfg)[i - e0.len()]);
                }
            }
        }
    }
}

/// Appends the farclip entry when the configuration asks for it.
fn add_farclip(cat: &mut Vec<Patch>, cfg: &PatchConfig)
    ensures
        entries_model(final(cat)@) == entries_model(old(cat)@) + seg_farclip(*cfg),
        entries_shaped(*cfg, entries_model(old(cat)@)) ==> entries_shaped(
            *cfg,
            entries_model(final(cat)@),
        ),
{
    let ghost e0 = entries_model(cat@);
    if cfg.farclip {
        let bytes = le32_bytes(cfg.farclip_bits);
        cat.push(
            Patch {
                id: PatchId::Farclip,
                op: PatchOp::OffsetWrite { offset: FARCLIP_OFFSET, bytes },
            },
        );
    }
    proof {
        assert(entries_model(cat@) =~= e0 + seg_farclip(*cfg));
        if entries_shaped(*cfg, e0) {
            assert forall|i: int| 0 <= i < entries_model(cat@).len() implies entry_shape(
                *cfg,
                entries_model(cat@)[i],
            ) by {
                if i < e0.len() {
                    assert(entries_model(cat@)[i] == e0[i]);
                } else {
                    assert(entries_model(cat@)[i] == seg_farclip(*cfg)[i - e0.len()]);
                }
            }
        }
    }
}

/// Appends the field-of-view entry when the configuration asks for it.
fn add_fov(cat: &mut Vec<Patch>, cfg: &PatchConfig)
    ensures
        entries_model(final(cat)@) == entries_model(old(cat)@) + seg_fov(*cfg),
        entries_shaped(*cfg, entries_model(old(cat)@)) ==> entries_shaped(
            *cfg,
            entries_model(final(cat)@),
        ),
{
    let ghost e0 = entries_model(cat@);
    if cfg.fov {
        let bytes = le32_bytes(cfg.fov_bits);
        cat.push(Patch { id: PatchId::Fov, op: PatchOp::OffsetWrite { offset: FOV_OFFSET, bytes } });
    }
    proof {
        assert(entries_model(cat@) =~= e0 + seg_fov(*cfg));
        if entries_shaped(*cfg, e0) {
            assert forall|i: int| 0 <= i < entries_model(cat@).len() implies entry_shape(
                *cfg,
                entries_model(cat@)[i],
            ) by {
                if i < e0.len() {
                    assert(entries_model(cat@)[i] == e0[i]);
                } else {
                    assert(entries_model(cat@)[i] == seg_fov(*cfg)[i - e0.len()]);
                }
            }
        }
    }
}

/// Appends the frilldistance entry when the configuration asks for it.
fn add_frilldistance(cat: &mut Vec<Patch>, cfg: &PatchConfig)
    ensures
        entries_model(final(cat)@) == entries_model(old(cat)@) + seg_frilldistance(*cfg),
        entries_shaped(*cfg, entries_model(old(cat)@)) ==> entries_shaped(
            *cfg,
            entries_model(final(cat)@),
        ),
{
    let ghost e0 = entries_model(cat@);
    if cfg.frilldistance {
        let bytes = le32_bytes(cfg.frilldistance_bits);
        cat.push(
            Patch {
                id: PatchId::Frilldistance,
                op: PatchOp::OffsetWrite { offset: FRILLDISTANCE_OFFSET, bytes },
            },
        );
    }
    proof {
        assert(entries_model(cat@) =~= e0 + seg_frilldistance(*cfg));
        if entries_shaped(*cfg, e0) {
            assert forall|i: int| 0 <= i < entries_model(cat@).len() implies entry_shape(
                *cfg,
                entries_model(cat@)[i],
            ) by {
                if i < e0.len() {
                    assert(entries_model(cat@)[i] == e0[i]);
                } else {
                    assert(entries_model(cat@)[i] == seg_frilldistance(*cfg)[i - e0.len()]);
                }
            }
        }
    }
}

/// Appends the sound-in-background entry when the configuration asks for
/// it.
fn add_sound_in_background(cat: &mut Vec<Patch>, cfg: &PatchConfig)
    ensures
        entries_model(final(cat)@) == entries_model(old(cat)@) + seg_sound_in_background(*cfg),
        entries_shaped(*cfg, entries_model(old(cat)@)) ==> entries_shaped(
            *cfg,
            entries_model(final(cat)@),
        ),
{
    let ghost e0 = entries_model(cat@);
    if cfg.sound_in_background {
        let bytes: Vec<u8> = vec![SOUND_IN_BACKGROUND_BYTE];
        proof {
            assert(bytes@ =~= seq![SOUND_IN_BACKGROUND_BYTE]);
        }
        cat.push(
            Patch {
                id: PatchId::SoundInBackground,
                op: PatchOp::OffsetWrite { offset: SOUND_IN_BACKGROUND_OFFSET, bytes },
            },
        );
    }
    proof {
        assert(entries_model(cat@) =~= e0 + seg_sound_in_background(*cfg));
        if entries_shaped(*cfg, e0) {
            assert forall|i: int| 0 <= i < entries_model(cat@).len() implies entry_shape(
                *cfg,
                entries_model(cat@)[i],
            ) by {
                if i < e0.len() {
                    assert(entries_model(cat@)[i] == e0[i]);
                } else {
                    assert(entries_model(cat@)[i] == seg_sound_in_background(*cfg)[i - e0.len()]);
                }
            }
        }
    }
}

/// Appends the sound channel count entry when the configuration asks for
/// it, encoding the already-validated count as NUL-terminated decimal
/// text.
fn add_sound_channels(cat: &mut Vec<Patch>, cfg: &PatchConfig)
    requires
        cfg.sound_channels ==> SOUND_CHANNELS_MIN <= cfg.sound_channel_count
            <= SOUND_CHANNELS_MAX,
    ensures
        entries_model(final(cat)@) == entries_model(old(cat)@) + seg_sound_channels(*cfg),
        entries_shaped(*cfg, entries_model(old(cat)@)) ==> entries_shaped(
            *cfg,
            entries_model(final(cat)@),
        ),
{
    let ghost e0 = entries_model(cat@);
    if cfg.sound_channels {
        proof {
            lemma_dec_digits_len_below_1000(cfg.sound_channel_count as nat);
        }
        let bytes = match encode_bounded_decimal(
            cfg.sound_channel_count as u32,
            SOUND_CHANNELS_BUDGET,
        ) {
            Ok(b) => b,
            Err(_) => {
                proof {
                    assert(false);
                }
                Vec::new()
            },
        };
        cat.push(
            Patch {
                id: PatchId::SoundChannels,
                op: PatchOp::OffsetWrite { offset: SOUND_CHANNELS_OFFSET, bytes },
            },
        );
    }
    proof {
        assert(entries_model(cat@) =~= e0 + seg_sound_channels(*cfg));
        if entries_shaped(*cfg, e0) {
            assert forall|i: int| 0 <= i < entries_model(cat@).len() implies entry_shape(
                *cfg,
                entries_model(cat@)[i],
            ) by {
                if i < e0.len() {
                    assert(entries_model(cat@)[i] == e0[i]);
                } else {
                    assert(entries_model(cat@)[i] == seg_sound_channels(*cfg)[i - e0.len()]);
                }
            }
        }
    }
}

/// Appends the quickloot entry when the configuration asks for it.
fn add_quickloot(cat: &mut Vec<Patch>, cfg: &PatchConfig)
    ensures
        entries_model(final(cat)@) == entries_model(old(cat)@) + seg_quickloot(*cfg),
        entries_shaped(*cfg, entries_model(old(cat)@)) ==> entries_shaped(
            *cfg,
            entries_model(final(cat)@),
        ),
{
    let ghost e0 = entries_model(cat@);
    if cfg.quickloot {
        let writes: Vec<(usize, Vec<u8>)> = vec![
            (QUICKLOOT_OFFSET_A, vec![QUICKLOOT_BYTE]),
            (QUICKLOOT_OFFSET_B, vec![QUICKLOOT_BYTE]),
        ];
        proof {
            assert(writes_view(writes@) =~~= quickloot_model());
        }
        cat.push(Patch { id: PatchId::Quickloot, op: PatchOp::MultiWrite { writes } });
    }
    proof {
        assert(entries_model(cat@) =~= e0 + seg_quickloot(*cfg));
        if entries_shaped(*cfg, e0) {
            assert forall|i: int| 0 <= i < entries_model(cat@).len() implies entry_shape(
                *cfg,
                entries_model(cat@)[i],
            ) by {
                if i < e0.len() {
                    assert(entries_model(cat@)[i] == e0[i]);
                } else {
                    assert(entries_model(cat@)[i] == seg_quickloot(*cfg)[i - e0.len()]);
                }
            }
        }
    }
}

/// Appends the nameplate distance entry when the configuration asks for
/// it.
fn add_nameplate(cat: &mut Vec<Patch>, cfg: &PatchConfig)
    ensures
        entries_model(final(cat)@) == entries_model(old(cat)@) + seg_nameplate(*cfg),
        entries_shaped(*cfg, entries_model(old(cat)@)) ==> entries_shaped(
            *cfg,
            entries_model(final(cat)@),
        ),
{
    let ghost e0 = entries_model(cat@);
    if cfg.nameplate_distance {
        let bytes = le32_bytes(cfg.nameplate_bits);
        cat.push(
            Patch {
                id: PatchId::NameplateDistance,
                op: PatchOp::OffsetWrite { offset: NAMEPLATE_OFFSET, bytes },
            },
        );
    }
    proof {
        assert(entries_model(cat@) =~= e0 + seg_nameplate(*cfg));
        if entries_shaped(*cfg, e0) {
            assert forall|i: int| 0 <= i < entries_model(cat@).len() implies entry_shape(
                *cfg,
                entries_model(cat@)[i],
            ) by {
                if i < e0.len() {
                    assert(entries_model(cat@)[i] == e0[i]);
                } else {
                    assert(entries_model(cat@)[i] == seg_nameplate(*cfg)[i - e0.len()]);
                }
            }
        }
    }
}

/// Appends the camera distance limit entry when the configuration sets
/// one.
fn add_max_camera(cat: &mut Vec<Patch>, cfg: &PatchConfig)
    ensures
        entries_model(final(cat)@) == entries_model(old(cat)@) + seg_max_camera(*cfg),
        entries_shaped(*cfg, entries_model(old(cat)@)) ==> entries_shaped(
            *cfg,
            entries_model(final(cat)@),
        ),
{
    let ghost e0 = entries_model(cat@);
    if let Some(bits) = cfg.max_camera_bits {
        let bytes = le32_bytes(bits);
        cat.push(
            Patch {
                id: PatchId::MaxCameraDistance,
                op: PatchOp::OffsetWrite { offset: MAX_CAMERA_OFFSET, bytes },
            },
        );
    }
    proof {
        assert(entries_model(cat@) =~= e0 + seg_max_camera(*cfg));
        if entries_shaped(*cfg, e0) {
            assert forall|i: int| 0 <= i < entries_model(cat@).len() implies entry_shape(
                *cfg,
                entries_model(cat@)[i],
            ) by {
                if i < e0.len() {
                    assert(entries_model(cat@)[i] == e0[i]);
                } else {
                    assert(entries_model(cat@)[i] == seg_max_camera(*cfg)[i - e0.len()]);
                }
            }
        }
    }
}

/// Appends the camera skip fix entry when the configuration asks for it.
fn add_camera_skip(cat: &mut Vec<Patch>, cfg: &PatchConfig)
    ensures
        entries_model(final(cat)@) == entries_model(old(cat)@) + seg_camera_skip(*cfg),
        entries_shaped(*cfg, entries_model(old(cat)@)) ==> entries_shaped(
            *cfg,
            entries_model(final(cat)@),
        ),
{
    let ghost e0 = entries_model(cat@);
    if cfg.camera_skip_fix {
        let writes = camera_skip_writes();
        cat.push(Patch { id: PatchId::CameraSkipFix, op: PatchOp::MultiWrite { writes } });
    }
    proof {
        assert(entries_model(cat@) =~= e0 + seg_camera_skip(*cfg));
        if entries_shaped(*cfg, e0) {
            assert forall|i: int| 0 <= i < entries_model(cat@).len() implies entry_shape(
                *cfg,
                entries_model(cat@)[i],
            ) by {
                if i < e0.len() {
                    assert(entries_model(cat@)[i] == e0[i]);
                } else {
                    assert(entries_model(cat@)[i] == seg_camera_skip(*cfg)[i - e0.len()]);
                }
            }
        }
    }
}

/// `op` may write the byte at position `k`. For a find-and-replace
/// operation the position depends on the image it is applied to, so every
/// position counts as possibly written.
pub open spec fn op_touches(op: OpModel, k: int) -> bool {
    match op {
        OpModel::OffsetWrite { offset, bytes } => offset <= k < offset + bytes.len(),
        OpModel::OrField16 { offset, .. } => offset <= k < offset + 2,
        OpModel::MultiWrite { writes } => exists|i: int|
            0 <= i < writes.len() && (#[trigger] writes[i]).0 <= k < writes[i].0
                + writes[i].1.len(),
        OpModel::FindReplace { .. } => true,
    }
}

/// The fixed byte window of each catalog slot: every position the slot's
/// operation can ever write, whatever the configuration values are.
pub open spec fn id_window(id: PatchId, k: int) -> bool {
    match id {
        PatchId::LargeAddressAware => LARGE_ADDRESS_OFFSET as int <= k < LARGE_ADDRESS_OFFSET
            as int + 2,
        PatchId::Farclip => FARCLIP_OFFSET as int <= k < FARCLIP_OFFSET as int + 4,
        PatchId::Fov => FOV_OFFSET as int <= k < FOV_OFFSET as int + 4,
        PatchId::Frilldistance => FRILLDISTANCE_OFFSET as int <= k < FRILLDISTANCE_OFFSET as int
            + 4,
        PatchId::SoundInBackground => k == SOUND_IN_BACKGROUND_OFFSET as int,
        PatchId::SoundChannels => SOUND_CHANNELS_OFFSET as int <= k < SOUND_CHANNELS_OFFSET as int
            + SOUND_CHANNELS_BUDGET as int,
        PatchId::Quickloot => k == QUICKLOOT_OFFSET_A as int || k == QUICKLOOT_OFFSET_B as int,
        PatchId::NameplateDistance => NAMEPLATE_OFFSET as int <= k < NAMEPLATE_OFFSET as int + 4,
        PatchId::MaxCameraDistance => MAX_CAMERA_OFFSET as int <= k < MAX_CAMERA_OFFSET as int + 4,
        PatchId::CameraSkipFix => (CAMERA_SKIP_OFFSET_1 as int <= k < CAMERA_SKIP_OFFSET_1 as int
            + 67) || (CAMERA_SKIP_OFFSET_2 as int <= k < CAMERA_SKIP_OFFSET_2 as int + 5) || (
        CAMERA_SKIP_OFFSET_3 as int <= k < CAMERA_SKIP_OFFSET_3 as int + 6) || (
        CAMERA_SKIP_OFFSET_4 as int <= k < CAMERA_SKIP_OFFSET_4 as int + 21) || (
        CAMERA_SKIP_OFFSET_5 as int <= k < CAMERA_SKIP_OFFSET_5 as int + 30),
    }
}

/// An entry is well formed for `cfg`: its operation is the fixed one of
/// its slot, and its slot is enabled in `cfg`.
pub open spec fn entry_shape(cfg: PatchConfig, e: (PatchId, OpModel)) -> bool {
    match e.0 {
        PatchId::LargeAddressAware => cfg.large_address_aware && e.1 == (OpModel::OrField16 {
            offset: LARGE_ADDRESS_OFFSET as int,
            mask: LARGE_ADDRESS_MASK,
        }),
        PatchId::Farclip => cfg.farclip && e.1 == (OpModel::OffsetWrite {
            offset: FARCLIP_OFFSET as int,
            bytes: le32(cfg.farclip_bits),
        }),
        PatchId::Fov => cfg.fov && e.1 == (OpModel::OffsetWrite {
            offset: FOV_OFFSET as int,
            bytes: le32(cfg.fov_bits),
        }),
        PatchId::Frilldistance => cfg.frilldistance && e.1 == (OpModel::OffsetWrite {
            offset: FRILLDISTANCE_OFFSET as int,
            bytes: le32(cfg.frilldistance_bits),
        }),
        PatchId::SoundInBackground => cfg.sound_in_background && e.1 == (OpModel::OffsetWrite {
            offset: SOUND_IN_BACKGROUND_OFFSET as int,
            bytes: seq![SOUND_IN_BACKGROUND_BYTE],
        }),
        PatchId::SoundChannels => cfg.sound_channels && e.1 == (OpModel::OffsetWrite {
            offset: SOUND_CHANNELS_OFFSET as int,
            bytes: dec_digits(cfg.sound_channel_count as nat).push(0),
        }),
        PatchId::Quickloot => cfg.quickloot && e.1 == (OpModel::MultiWrite {
            writes: quickloot_model(),
        }),
        PatchId::NameplateDistance => cfg.nameplate_distance && e.1 == (OpModel::OffsetWrite {
            offset: NAMEPLATE_OFFSET as int,
            bytes: le32(cfg.nameplate_bits),
        }),
        PatchId::MaxCameraDistance => cfg.max_camera_bits matches Some(bits) && e.1 == (
        OpModel::OffsetWrite { offset: MAX_CAMERA_OFFSET as int, bytes: le32(bits) }),
        PatchId::CameraSkipFix => cfg.camera_skip_fix && e.1 == (OpModel::MultiWrite {
            writes: camera_skip_model(),
        }),
    }
}

/// Every entry of the list is well formed for `cfg`.
pub open spec fn entries_shaped(cfg: PatchConfig, s: Seq<(PatchId, OpModel)>) -> bool {
    forall|i: int| 0 <= i < s.len() ==> entry_shape(cfg, #[trigger] s[i])
}

/// Two entries of one catalog that name the same patch are the same
/// entry: a slot contributes at most one entry to a run.
pub proof fn lemma_catalog_entry_identified_by_id(
    cfg: PatchConfig,
    e1: (PatchId, OpModel),
    e2: (PatchId, OpModel),
)
    requires
        entry_shape(cfg, e1),
        entry_shape(cfg, e2),
        e1.0 == e2.0,
    ensures
        e1 == e2,
{
}

/// Every byte position a catalog entry's operation writes lies inside its
/// slot's fixed window.
pub proof fn lemma_entry_confined(cfg: PatchConfig, e: (PatchId, OpModel), k: int)
    requires
        cfg.sound_channels ==> SOUND_CHANNELS_MIN <= cfg.sound_channel_count
            <= SOUND_CHANNELS_MAX,
        entry_shape(cfg, e),
        op_touches(e.1, k),
    ensures
        id_window(e.0, k),
{
    match e.0 {
        PatchId::SoundChannels => {
            lemma_dec_digits_len_below_1000(cfg.sound_channel_count as nat);
        },
        PatchId::Quickloot => {
            let ws = quickloot_model();
            let i = choose|i: int|
                0 <= i < ws.len() && (#[trigger] ws[i]).0 <= k < ws[i].0 + ws[i].1.len();
            assert(i == 0 || i == 1);
        },
        PatchId::CameraSkipFix => {
            reveal(camera_skip_model);
            let ws = camera_skip_model();
            let i = choose|i: int|
                0 <= i < ws.len() && (#[trigger] ws[i]).0 <= k < ws[i].0 + ws[i].1.len();
            assert(0 <= i < 5);
        },
        _ => {},
    }
}

/// The windows of two different catalog slots never share a byte
/// position.
pub proof fn lemma_windows_disjoint(id1: PatchId, id2: PatchId, k: int)
    requires
        id1 != id2,
        id_window(id1, k),
    ensures
        !id_window(id2, k),
{
}

/// Design invariant of the catalog, guaranteed by construction: no two
/// distinct entries of one run's catalog ever address overlapping byte
/// ranges. `build_catalog` establishes `entry_shape` of every entry it
/// emits, so the invariant holds of every catalog a run can see.
pub proof fn lemma_catalog_ranges_disjoint(
    cfg: PatchConfig,
    e1: (PatchId, OpModel),
    e2: (PatchId, OpModel),
    k: int,
)
    requires
        cfg.sound_channels ==> SOUND_CHANNELS_MIN <= cfg.sound_channel_count
            <= SOUND_CHANNELS_MAX,
        entry_shape(cfg, e1),
        entry_shape(cfg, e2),
        e1 != e2,
        op_touches(e1.1, k),
    ensures
        !op_touches(e2.1, k),
{
    if e1.0 == e2.0 {
        lemma_catalog_entry_identified_by_id(cfg, e1, e2);
    }
    lemma_entry_confined(cfg, e1, k);
    if op_touches(e2.1, k) {
        lemma_entry_confined(cfg, e2, k);
        lemma_windows_disjoint(e1.0, e2.0, k);
    }
}

/// Translate a configuration into the ordered patch list for the known
/// executable build. A sound channel count outside
/// `SOUND_CHANNELS_MIN ..= SOUND_CHANNELS_MAX` is rejected here, at
/// configuration time, before anything is encoded.
pub fn build_catalog(cfg: &PatchConfig) -> (r: Result<Vec<Patch>, ConfigError>)
    ensures
        r is Ok <==> (cfg.sound_channels ==> SOUND_CHANNELS_MIN <= cfg.sound_channel_count
            <= SOUND_CHANNELS_MAX),
        r matches Ok(cat) ==> entries_model(cat@) == catalog_model(*cfg),
        r matches Ok(cat) ==> entries_shaped(*cfg, entries_model(cat@)),
        r is Err ==> r == Err::<Vec<Patch>, ConfigError>(ConfigError::SoundChannelsOutOfRange),
{
    if cfg.sound_channels && (cfg.sound_channel_count < SOUND_CHANNELS_MIN
        || cfg.sound_channel_count > SOUND_CHANNELS_MAX) {
        return Err(ConfigError::SoundChannelsOutOfRange);
    }
    let mut cat: Vec<Patch> = Vec::new();
    proof {
        assert(entries_model(cat@) =~= Seq::<(PatchId, OpModel)>::empty());
        assert(Seq::<(PatchId, OpModel)>::empty() + seg_large_address(*cfg) =~= seg_large_address(
            *cfg,
        ));
        assert(entries_shaped(*cfg, entries_model(cat@)));
    }
    add_large_address(&mut cat, cfg);
    add_farclip(&mut cat, cfg);
    add_fov(&mut cat, cfg);
    add_frilldistance(&mut cat, cfg);
    add_sound_in_background(&mut cat, cfg);
    add_sound_channels(&mut cat, cfg);
    add_quickloot(&mut cat, cfg);
    add_nameplate(&mut cat, cfg);
    add_max_camera(&mut cat, cfg);
    add_camera_skip(&mut cat, cfg);
    proof {
        assert(entries_model(cat@) == catalog_model(*cfg));
    }
    Ok(cat)
}

/// Apply one patch operation to the image. The operation either applies
/// completely or leaves the image byte-for-byte unchanged and returns the
/// error that `op_outcome` names for it.
pub fn apply_patch(image: &mut Vec<u8>, op: &PatchOp) -> (r: Result<(), PatchError>)
    ensures
        match op_outcome(old(image)@, op.model()) {
            Ok(s) => r is Ok && final(image)@ == s,
            Err(e) => r == Err::<(), PatchError>(e) && final(image)@ == old(image)@,
        },
{
    match op {
        PatchOp::OffsetWrite { offset, bytes } => write_at(image, *offset, bytes.as_slice()),
        PatchOp::OrField16 { offset, mask } => or16_at(image, *offset, *mask),
        PatchOp::MultiWrite { writes } => apply_batch(image, writes),
        PatchOp::FindReplace { pattern, replacement } => {
            if pattern.len() > image.len() || replacement.len() > image.len() {
                return Err(PatchError::NotFound);
            }
            match find_last(image, pattern) {
                None => Err(PatchError::NotFound),
                Some(idx) => {
                    proof {
                        let p = last_match_idx(old(image)@, pattern@);
                        assert(is_last_match(old(image)@, pattern@, p)) by {
                            assert(is_last_match(old(image)@, pattern@, idx as int));
                        }
                        assert(p == idx as int);
                    }
                    write_at(image, idx, replacement.as_slice())
                },
            }
        },
    }
}

/// The image after the first `n` entries of the catalog, each applied to
/// the image its predecessors produced; an entry whose application fails
/// leaves the image as it found it.
pub open spec fn run_prefix(img: Seq<u8>, entries: Seq<(PatchId, OpModel)>, n: int) -> Seq<u8>
    decreases n,
{
    if n <= 0 {
        img
    } else {
        let prev = run_prefix(img, entries, n - 1);
        match op_outcome(prev, entries[n - 1].1) {
            Ok(s) => s,
            Err(_) => prev,
        }
    }
}

/// Run orchestration: apply every catalog entry in order, fail-fast. On
/// success every entry applied. On failure the run stops at the first
/// entry whose application failed: the image keeps the edits of the
/// entries before it, and the result names the failing entry's position
/// and the reason.
pub fn apply_all(image: &mut Vec<u8>, catalog: &Vec<Patch>) -> (r: Result<(), (usize, PatchError)>)
    ensures
        ({
            let entries = entries_model(catalog@);
            match r {
                Ok(_) => {
                    &&& forall|i: int|
                        0 <= i < entries.len() ==> op_outcome(
                            run_prefix(old(image)@, entries, i),
                            entries[i].1,
                        ) is Ok
                    &&& final(image)@ == run_prefix(old(image)@, entries, entries.len() as int)
                },
                Err((i, e)) => {
                    &&& i < entries.len()
                    &&& forall|j: int|
                        0 <= j < i ==> op_outcome(
                            run_prefix(old(image)@, entries, j),
                            entries[j].1,
                        ) is Ok
                    &&& op_outcome(run_prefix(old(image)@, entries, i as int), entries[i as int].1)
                        == Err::<Seq<u8>, PatchError>(e)
                    &&& final(image)@ == run_prefix(old(image)@, entries, i as int)
                },
            }
        }),
{
    let ghost entries = entries_model(catalog@);
    let mut i: usize = 0;
    while i < catalog.len()
        invariant
            entries == entries_model(catalog@),
            i <= catalog@.len(),
            image@ == run_prefix(old(image)@, entries, i as int),
            forall|j: int|
                0 <= j < i ==> op_outcome(run_prefix(old(image)@, entries, j), entries[j].1) is Ok,
        decreases catalog@.len() - i,
    {
        let p = &catalog[i];
        proof {
            assert(entries[i as int] == (catalog@[i as int].id, catalog@[i as int].op.model()));
        }
        match apply_patch(image, &p.op) {
            Ok(_) => {},
            Err(e) => {
                return Err((i, e));
            },
        }
        i = i + 1;
    }
    Ok(())
}

} // verus!
