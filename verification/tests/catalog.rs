use exepatch::catalog::{apply_all, apply_patch, build_catalog, ConfigError, PatchConfig, PatchId,
    PatchOp, CAMERA_SKIP_OFFSET_1, FARCLIP_OFFSET, FOV_OFFSET, FRILLDISTANCE_OFFSET,
    LARGE_ADDRESS_OFFSET, MAX_CAMERA_OFFSET, NAMEPLATE_OFFSET, QUICKLOOT_OFFSET_A,
    QUICKLOOT_OFFSET_B, SOUND_CHANNELS_OFFSET, SOUND_IN_BACKGROUND_OFFSET};
use exepatch::engine::PatchError;

fn full_config() -> PatchConfig {
    PatchConfig {
        large_address_aware: true,
        farclip: true,
        farclip_bits: 10000f32.to_bits(),
        fov: true,
        fov_bits: 1.925f32.to_bits(),
        frilldistance: true,
        frilldistance_bits: 300f32.to_bits(),
        sound_in_background: true,
        sound_channels: true,
        sound_channel_count: 64,
        quickloot: true,
        nameplate_distance: true,
        nameplate_bits: 41f32.to_bits(),
        max_camera_bits: Some(100f32.to_bits()),
        camera_skip_fix: true,
    }
}

/// A blank image large enough for every catalog offset.
fn blank_image() -> Vec<u8> {
    vec![0u8; FRILLDISTANCE_OFFSET + 4]
}

#[test]
fn full_catalog_has_every_entry_in_order() {
    let catalog = build_catalog(&full_config()).unwrap();
    let ids: Vec<PatchId> = catalog.iter().map(|p| p.id).collect();
    assert_eq!(
        ids,
        vec![
            PatchId::LargeAddressAware,
            PatchId::Farclip,
            PatchId::Fov,
            PatchId::Frilldistance,
            PatchId::SoundInBackground,
            PatchId::SoundChannels,
            PatchId::Quickloot,
            PatchId::NameplateDistance,
            PatchId::MaxCameraDistance,
            PatchId::CameraSkipFix,
        ]
    );
}

#[test]
fn disabled_entries_are_left_out() {
    let mut cfg = full_config();
    cfg.fov = false;
    cfg.quickloot = false;
    cfg.max_camera_bits = None;
    let catalog = build_catalog(&cfg).unwrap();
    assert_eq!(catalog.len(), 7);
    assert!(catalog.iter().all(|p| p.id != PatchId::Fov));
    assert!(catalog.iter().all(|p| p.id != PatchId::Quickloot));
    assert!(catalog.iter().all(|p| p.id != PatchId::MaxCameraDistance));
}

#[test]
fn catalog_encodes_parameter_bytes() {
    let catalog = build_catalog(&full_config()).unwrap();
    for patch in catalog.iter() {
        match (&patch.id, &patch.op) {
            (PatchId::Farclip, PatchOp::OffsetWrite { offset, bytes }) => {
                assert_eq!(*offset, FARCLIP_OFFSET);
                assert_eq!(*bytes, 10000f32.to_le_bytes().to_vec());
            }
            (PatchId::Fov, PatchOp::OffsetWrite { offset, bytes }) => {
                assert_eq!(*offset, FOV_OFFSET);
                assert_eq!(*bytes, 1.925f32.to_le_bytes().to_vec());
            }
            (PatchId::SoundChannels, PatchOp::OffsetWrite { offset, bytes }) => {
                assert_eq!(*offset, SOUND_CHANNELS_OFFSET);
                assert_eq!(*bytes, b"64\0".to_vec());
            }
            (PatchId::LargeAddressAware, PatchOp::OrField16 { offset, mask }) => {
                assert_eq!(*offset, LARGE_ADDRESS_OFFSET);
                assert_eq!(*mask, 0x20);
            }
            (PatchId::Quickloot, PatchOp::MultiWrite { writes }) => {
                assert_eq!(
                    *writes,
                    vec![(QUICKLOOT_OFFSET_A, vec![0x75]), (QUICKLOOT_OFFSET_B, vec![0x75])]
                );
            }
            _ => {}
        }
    }
}

#[test]
fn sound_channels_out_of_range_is_rejected_at_configuration_time() {
    let mut cfg = full_config();
    cfg.sound_channel_count = 0;
    assert!(matches!(build_catalog(&cfg), Err(ConfigError::SoundChannelsOutOfRange)));
    cfg.sound_channel_count = 999;
    assert!(matches!(build_catalog(&cfg), Err(ConfigError::SoundChannelsOutOfRange)));
    cfg.sound_channel_count = -5;
    assert!(matches!(build_catalog(&cfg), Err(ConfigError::SoundChannelsOutOfRange)));
    cfg.sound_channel_count = 998;
    assert!(build_catalog(&cfg).is_ok());
    cfg.sound_channels = false;
    cfg.sound_channel_count = 5000;
    assert!(build_catalog(&cfg).is_ok());
}

#[test]
fn apply_all_patches_blank_image() {
    let catalog = build_catalog(&full_config()).unwrap();
    let mut image = blank_image();
    assert_eq!(apply_all(&mut image, &catalog), Ok(()));
    let field = u16::from_le_bytes([image[LARGE_ADDRESS_OFFSET], image[LARGE_ADDRESS_OFFSET + 1]]);
    assert_eq!(field, 0x0020);
    assert_eq!(image[FARCLIP_OFFSET..FARCLIP_OFFSET + 4], 10000f32.to_le_bytes());
    assert_eq!(image[FOV_OFFSET..FOV_OFFSET + 4], 1.925f32.to_le_bytes());
    assert_eq!(image[FRILLDISTANCE_OFFSET..FRILLDISTANCE_OFFSET + 4], 300f32.to_le_bytes());
    assert_eq!(image[SOUND_IN_BACKGROUND_OFFSET], 0x27);
    assert_eq!(image[SOUND_CHANNELS_OFFSET..SOUND_CHANNELS_OFFSET + 3], *b"64\0");
    assert_eq!(image[QUICKLOOT_OFFSET_A], 0x75);
    assert_eq!(image[QUICKLOOT_OFFSET_B], 0x75);
    assert_eq!(image[NAMEPLATE_OFFSET..NAMEPLATE_OFFSET + 4], 41f32.to_le_bytes());
    assert_eq!(image[MAX_CAMERA_OFFSET..MAX_CAMERA_OFFSET + 4], 100f32.to_le_bytes());
    assert_eq!(image[CAMERA_SKIP_OFFSET_1], 0x55);
}

#[test]
fn apply_all_fails_fast_on_short_image() {
    let catalog = build_catalog(&full_config()).unwrap();
    let mut image = vec![0u8; 16];
    assert_eq!(apply_all(&mut image, &catalog), Err((0, PatchError::OutOfRange)));
    assert_eq!(image, vec![0u8; 16]);
}

#[test]
fn apply_all_keeps_earlier_edits_on_failure() {
    let catalog = build_catalog(&full_config()).unwrap();
    // Large enough for the header flag but for nothing after it.
    let mut image = vec![0u8; LARGE_ADDRESS_OFFSET + 2];
    assert_eq!(apply_all(&mut image, &catalog), Err((1, PatchError::OutOfRange)));
    assert_eq!(image[LARGE_ADDRESS_OFFSET], 0x20);
}

#[test]
fn find_replace_op_rewrites_last_occurrence() {
    let mut image: Vec<u8> = vec![1, 2, 3, 4, 5, 6, 7, 3, 4, 5, 6, 8];
    let op = PatchOp::FindReplace { pattern: vec![3, 4, 5, 6], replacement: vec![9, 9, 9, 9] };
    assert_eq!(apply_patch(&mut image, &op), Ok(()));
    assert_eq!(image, [1u8, 2, 3, 4, 5, 6, 7, 9, 9, 9, 9, 8]);
}

#[test]
fn find_replace_op_missing_pattern_reports_not_found() {
    let mut image: Vec<u8> = vec![1, 2, 3];
    let op = PatchOp::FindReplace { pattern: vec![7, 7], replacement: vec![9, 9] };
    assert_eq!(apply_patch(&mut image, &op), Err(PatchError::NotFound));
    assert_eq!(image, [1u8, 2, 3]);
}

#[test]
fn empty_catalog_applies_nothing() {
    let cfg = PatchConfig {
        large_address_aware: false,
        farclip: false,
        farclip_bits: 0,
        fov: false,
        fov_bits: 0,
        frilldistance: false,
        frilldistance_bits: 0,
        sound_in_background: false,
        sound_channels: false,
        sound_channel_count: 64,
        quickloot: false,
        nameplate_distance: false,
        nameplate_bits: 0,
        max_camera_bits: None,
        camera_skip_fix: false,
    };
    let catalog = build_catalog(&cfg).unwrap();
    assert!(catalog.is_empty());
    let mut image: Vec<u8> = vec![9, 9, 9];
    assert_eq!(apply_all(&mut image, &catalog), Ok(()));
    assert_eq!(image, [9u8, 9, 9]);
}
