use paperpad::display::{RemoteFrame, RemoteFrameCache, RemoteFrameError};
use paperpad::framebuffer::Mono1FrameError;
use paperpad::mxcfb::layout::{visible_mapping_len, FramebufferGeometry, MappingError};
use paperpad::mxcfb::pixels::{
    blit_remote, BlitError, FramebufferSpec, FB_TYPE_PACKED_PIXELS, FB_VISUAL_MONO10,
};
use paperpad::mxcfb::region::{checked_visible_region, remote_update_region, UpdateRegion};
use paperpad::mxcfb::update_marker::UpdateMarkerSequence;
use paperpad::mxcfb::update_request::{full_gc16_remote_request, RequestError};
use paperpad::screen::{ScreenLayout, ScreenRect, SYSTEM_UI_HEIGHT};

// ---------------------------------------------------------------------------
// Screen ownership
// ---------------------------------------------------------------------------

#[test]
fn portrait_screen_reserves_bottom_system_strip() {
    let layout = ScreenLayout::new(1272, 1696).expect("screen layout");

    assert_eq!(layout.physical_size(), (1272, 1696));
    assert_eq!(
        layout.remote_viewport,
        ScreenRect {
            x: 0,
            y: 0,
            width: 1272,
            height: 1624,
        }
    );
    assert_eq!(
        layout.system_ui_region,
        ScreenRect {
            x: 0,
            y: 1624,
            width: 1272,
            height: 72,
        }
    );
}

#[test]
fn regions_cover_screen_without_overlap_or_gap() {
    for (width, height) in [(1, 1), (123, 71), (123, 72), (636, 848), (u16::MAX, u16::MAX)] {
        let layout = ScreenLayout::new(width, height).expect("screen layout");
        let (physical_width, physical_height) = layout.physical_size();

        assert_eq!(layout.remote_viewport.width, physical_width);
        assert_eq!(layout.system_ui_region.width, physical_width);
        assert_eq!(layout.remote_viewport.y, 0);
        assert_eq!(layout.system_ui_region.y, layout.remote_viewport.height);
        assert_eq!(
            layout.remote_viewport.height + layout.system_ui_region.height,
            physical_height
        );
    }
}

#[test]
fn undersized_screen_is_local_only_and_zero_extent_has_no_layout() {
    let layout = ScreenLayout::new(100, 40).expect("screen layout");
    assert_eq!(layout.remote_viewport.height, 0);
    assert_eq!(layout.system_ui_region.height, 40);

    assert_eq!(ScreenLayout::new(0, 40), None);
    assert_eq!(ScreenLayout::new(100, 0), None);
}

#[test]
fn oversized_windows_are_capped_at_the_signed_coordinate_limit() {
    let layout = ScreenLayout::new(u16::MAX, 40_000).expect("screen layout");
    assert_eq!(layout.physical_size(), (32767, 32767));
    assert_eq!(layout.remote_viewport.height, 32767 - SYSTEM_UI_HEIGHT);
}

// ---------------------------------------------------------------------------
// Presentation boundary
// ---------------------------------------------------------------------------

#[test]
fn replacement_and_viewport_invalidation_preserve_cache_policy() {
    let mut cache = RemoteFrameCache::default();
    assert!(cache.current().is_none());

    cache.replace(1, 9, 2, "first");
    cache.replace(2, 17, 4, "second");
    let current = cache.current().expect("replacement is cached");
    assert_eq!(current.frame_id(), 2);
    assert_eq!(current.dimensions(), (17, 4));
    assert_eq!(*current.payload(), "second");

    assert!(cache.invalidate_mismatched((17, 4)).is_none());
    assert_eq!(cache.current().expect("matching frame remains").frame_id(), 2);

    let invalidated = cache
        .invalidate_mismatched((17, 5))
        .expect("mismatching frame is removed");
    assert_eq!(invalidated.frame_id(), 2);
    assert!(cache.current().is_none());
}

#[test]
fn remote_frame_validates_mono1_before_crossing_backend_boundary() {
    let frame = RemoteFrame::new(7, 9, 1, 2, &[0xaa, 0x80], 13).expect("valid frame");
    assert_eq!(frame.frame_id(), 7);
    assert_eq!((frame.width(), frame.height()), (9, 1));
    assert_eq!(frame.stride(), 2);
    assert_eq!(frame.pixels(), &[0xaa, 0x80]);
    assert_eq!(frame.receive_decode_us(), 13);

    assert!(RemoteFrame::new(8, 9, 1, 2, &[0xaa, 0x81], 0).is_err());
    assert!(RemoteFrame::new(9, 9, 1, 1, &[0xaa, 0x80], 0).is_err());
}

#[test]
fn remote_frame_errors_say_which_check_failed() {
    assert_eq!(
        RemoteFrame::new(8, 9, 1, 2, &[0xaa, 0x81], 0).err(),
        Some(RemoteFrameError::Pixels(Mono1FrameError::NonWhitePadding {
            row: 0,
            byte: 0x81
        }))
    );
    assert_eq!(
        RemoteFrame::new(9, 9, 1, 1, &[0xaa, 0x80], 0).err(),
        Some(RemoteFrameError::StrideMismatch {
            expected: 2,
            actual: 1
        })
    );
}

// ---------------------------------------------------------------------------
// Framebuffer mapping bounds
// ---------------------------------------------------------------------------

fn probed_geometry() -> FramebufferGeometry {
    FramebufferGeometry {
        xres: 1272,
        yres: 1696,
        xres_virtual: 1272,
        yres_virtual: 3392,
        xoffset: 0,
        yoffset: 0,
        bits_per_pixel: 8,
        line_length: 1272,
        smem_len: 4_314_624,
    }
}

#[test]
fn probed_geometry_maps_only_the_visible_page() {
    assert_eq!(visible_mapping_len(probed_geometry()).unwrap(), 2_157_312);
}

#[test]
fn vertical_offset_and_padded_rows_extend_the_required_mapping() {
    let geometry = FramebufferGeometry {
        xres: 9,
        yres: 2,
        xres_virtual: 12,
        yres_virtual: 6,
        xoffset: 2,
        yoffset: 3,
        bits_per_pixel: 8,
        line_length: 16,
        smem_len: 96,
    };
    assert_eq!(visible_mapping_len(geometry).unwrap(), 80);
}

#[test]
fn invalid_geometry_and_overflow_are_rejected() {
    let base = probed_geometry();
    for bad in [
        FramebufferGeometry { xres: 0, ..base },
        FramebufferGeometry {
            bits_per_pixel: 0,
            ..base
        },
        FramebufferGeometry {
            xoffset: u32::MAX,
            ..base
        },
        FramebufferGeometry {
            yoffset: u32::MAX,
            ..base
        },
        FramebufferGeometry {
            xres_virtual: 1271,
            ..base
        },
        FramebufferGeometry {
            yres_virtual: 1695,
            ..base
        },
        FramebufferGeometry {
            line_length: 1271,
            ..base
        },
        FramebufferGeometry {
            smem_len: 2_157_311,
            ..base
        },
        FramebufferGeometry {
            line_length: u32::MAX,
            ..base
        },
    ] {
        assert!(visible_mapping_len(bad).is_err(), "accepted {bad:?}");
    }
}

#[test]
fn mapping_errors_name_the_failed_bound() {
    let base = probed_geometry();
    assert_eq!(
        visible_mapping_len(FramebufferGeometry { yres: 0, ..base }),
        Err(MappingError::EmptyResolution)
    );
    assert_eq!(
        visible_mapping_len(FramebufferGeometry {
            xoffset: u32::MAX,
            ..base
        }),
        Err(MappingError::HorizontalOverflow)
    );
    assert_eq!(
        visible_mapping_len(FramebufferGeometry {
            line_length: 1271,
            ..base
        }),
        Err(MappingError::LineTooShort)
    );
    assert_eq!(
        visible_mapping_len(FramebufferGeometry {
            smem_len: 2_157_311,
            ..base
        }),
        Err(MappingError::ExceedsMemory)
    );
}

// ---------------------------------------------------------------------------
// Pixel conversion
// ---------------------------------------------------------------------------

fn screen(width: u16, remote_height: u16) -> ScreenLayout {
    ScreenLayout::new(width, remote_height + SYSTEM_UI_HEIGHT).unwrap()
}

fn spec(screen: ScreenLayout, line_padding: usize) -> FramebufferSpec {
    let (width, height) = screen.physical_size();
    let line_length = usize::from(width) + line_padding;
    FramebufferSpec {
        visible_width: u32::from(width),
        visible_height: u32::from(height),
        virtual_width: u32::from(width),
        virtual_height: u32::from(height),
        xoffset: 0,
        yoffset: 0,
        line_length,
        memory_len: line_length * usize::from(height),
        kind: FB_TYPE_PACKED_PIXELS,
        visual: FB_VISUAL_MONO10,
        bits_per_pixel: 8,
        grayscale: 1,
        nonstd: 0,
    }
}

fn mono(width: u16, height: u16, black: &[(usize, usize)]) -> Vec<u8> {
    let stride = usize::from(width).div_ceil(8);
    let mut pixels = vec![0; stride * usize::from(height)];
    for &(x, y) in black {
        pixels[y * stride + x / 8] |= 0x80 >> (x % 8);
    }
    pixels
}

#[test]
fn awkward_widths_preserve_row_padding_and_local_exit_strip() {
    for width in [1, 7, 8, 9, 1271, 1272] {
        let screen = screen(width, 1);
        let spec = spec(screen, 3);
        let pixels = mono(width, 1, &[(0, 0), (usize::from(width) - 1, 0)]);
        let frame = RemoteFrame::new(1, width, 1, pixels.len(), &pixels, 0);
        // The test uses a single Mono1 row, so its payload length is its stride.
        let frame = frame.unwrap();
        let mut memory = vec![0x5a; spec.memory_len];

        let region = blit_remote(frame, screen, spec, &mut memory).unwrap();
        assert_eq!(region, screen.remote_viewport);
        for (x, &actual) in memory.iter().take(usize::from(width)).enumerate() {
            let expected = if x == 0 || x == usize::from(width) - 1 {
                0x00
            } else {
                0xff
            };
            assert_eq!(actual, expected, "width={width} x={x}");
        }
        assert!(memory[usize::from(width)..].iter().all(|&byte| byte == 0x5a));
    }
}

#[test]
fn last_remote_row_stops_before_system_ui() {
    let screen = screen(9, 2);
    let spec = spec(screen, 3);
    let pixels = mono(9, 2, &[(0, 0), (8, 1)]);
    let frame = RemoteFrame::new(2, 9, 2, 2, &pixels, 0).unwrap();
    let mut memory = vec![0x5a; spec.memory_len];

    blit_remote(frame, screen, spec, &mut memory).unwrap();

    assert_eq!(memory[0], 0x00);
    assert_eq!(memory[spec.line_length + 8], 0x00);
    assert!(memory[spec.line_length * 2..].iter().all(|&byte| byte == 0x5a));
}

#[test]
fn virtual_offsets_and_stride_are_honored() {
    let screen = screen(9, 1);
    let mut spec = spec(screen, 0);
    spec.xoffset = 2;
    spec.yoffset = 1;
    spec.virtual_width = 11;
    spec.virtual_height += 1;
    spec.line_length = 16;
    spec.memory_len = spec.line_length * usize::try_from(spec.virtual_height).unwrap();
    let pixels = mono(9, 1, &[(0, 0), (8, 0)]);
    let frame = RemoteFrame::new(3, 9, 1, 2, &pixels, 0).unwrap();
    let mut memory = vec![0x5a; spec.memory_len];

    blit_remote(frame, screen, spec, &mut memory).unwrap();

    assert_eq!(memory[spec.line_length + 2], 0x00);
    assert_eq!(memory[spec.line_length + 10], 0x00);
    assert_eq!(memory[spec.line_length + 3], 0xff);
    assert!(memory[..spec.line_length + 2].iter().all(|&byte| byte == 0x5a));
    assert!(memory[spec.line_length + 11..].iter().all(|&byte| byte == 0x5a));
}

#[test]
fn probed_paperwhite_geometry_keeps_exit_and_second_page_untouched() {
    let screen = ScreenLayout::new(1272, 1696).unwrap();
    let mut spec = spec(screen, 0);
    spec.virtual_height = 3392;
    spec.memory_len = 4_314_624;
    let pixels = mono(1272, 1624, &[(0, 0), (1271, 1623)]);
    let frame = RemoteFrame::new(6, 1272, 1624, 159, &pixels, 0).unwrap();
    let mut memory = vec![0x5a; spec.memory_len];

    blit_remote(frame, screen, spec, &mut memory).unwrap();

    assert_eq!(memory[0], 0x00);
    assert_eq!(memory[1623 * spec.line_length + 1271], 0x00);
    assert!(memory[1624 * spec.line_length..].iter().all(|&byte| byte == 0x5a));
}

#[test]
fn invalid_format_geometry_and_bounds_leave_memory_unchanged() {
    let screen = screen(9, 1);
    let base = spec(screen, 3);
    let pixels = mono(9, 1, &[]);
    let frame = RemoteFrame::new(4, 9, 1, 2, &pixels, 0).unwrap();
    let cases = vec![
        FramebufferSpec {
            bits_per_pixel: 4,
            ..base
        },
        FramebufferSpec { visual: 0, ..base },
        FramebufferSpec {
            xoffset: u32::MAX,
            ..base
        },
        FramebufferSpec {
            line_length: usize::MAX,
            ..base
        },
        FramebufferSpec {
            memory_len: 1,
            ..base
        },
    ];
    for invalid in cases {
        let mut memory = vec![0x5a; base.memory_len];
        assert!(blit_remote(frame, screen, invalid, &mut memory).is_err());
        assert!(memory.iter().all(|&byte| byte == 0x5a));
    }

    let wrong_pixels = mono(8, 1, &[]);
    let wrong_frame = RemoteFrame::new(5, 8, 1, 1, &wrong_pixels, 0).unwrap();
    let mut memory = vec![0x5a; base.memory_len];
    assert!(blit_remote(wrong_frame, screen, base, &mut memory).is_err());
    assert!(memory.iter().all(|&byte| byte == 0x5a));

    let mut short = vec![0x5a; 8];
    assert!(blit_remote(frame, screen, base, &mut short).is_err());
    assert!(short.iter().all(|&byte| byte == 0x5a));
}

#[test]
fn blit_errors_name_the_failed_check() {
    let screen = screen(9, 1);
    let base = spec(screen, 3);
    let pixels = mono(9, 1, &[]);
    let frame = RemoteFrame::new(4, 9, 1, 2, &pixels, 0).unwrap();
    let mut memory = vec![0x5a; base.memory_len];
    assert_eq!(
        blit_remote(frame, screen, FramebufferSpec { grayscale: 0, ..base }, &mut memory),
        Err(BlitError::UnsupportedFormat)
    );
    assert_eq!(
        blit_remote(
            frame,
            screen,
            FramebufferSpec {
                visible_width: 8,
                ..base
            },
            &mut memory
        ),
        Err(BlitError::ScreenMismatch)
    );
    assert_eq!(
        blit_remote(
            frame,
            screen,
            FramebufferSpec {
                virtual_height: 1,
                ..base
            },
            &mut memory
        ),
        Err(BlitError::OutsideVirtual)
    );
    assert_eq!(
        blit_remote(frame, screen, base, &mut memory[..8]),
        Err(BlitError::ExceedsMapping)
    );
    assert!(memory.iter().all(|&byte| byte == 0x5a));
}

// ---------------------------------------------------------------------------
// Update regions and requests
// ---------------------------------------------------------------------------

#[test]
fn pw6_remote_update_stops_before_exit_strip() {
    let screen = ScreenLayout::new(1272, 1696).unwrap();
    assert_eq!(
        remote_update_region(screen, 1272, 1696).unwrap(),
        UpdateRegion {
            top: 0,
            left: 0,
            width: 1272,
            height: 1624,
        }
    );
    assert_eq!(screen.system_ui_region.y, 1624);
}

#[test]
fn local_only_or_mismatched_screens_have_no_remote_update() {
    let local_only = ScreenLayout::new(100, 40).unwrap();
    assert!(remote_update_region(local_only, 100, 40).is_err());

    let screen = ScreenLayout::new(1272, 1696).unwrap();
    assert!(remote_update_region(screen, 1271, 1696).is_err());
    assert!(remote_update_region(screen, 1272, 1695).is_err());
}

#[test]
fn visible_region_accepts_last_pixel_but_rejects_invalid_bounds() {
    assert_eq!(
        checked_visible_region(1271, 1695, 1, 1, 1272, 1696).unwrap(),
        UpdateRegion {
            top: 1695,
            left: 1271,
            width: 1,
            height: 1,
        }
    );
    for (left, top, width, height, visible_width, visible_height) in [
        (0, 0, 0, 1, 1272, 1696),
        (0, 0, 1, 0, 1272, 1696),
        (0, 0, 1, 1, 0, 1696),
        (0, 0, 1, 1, 1272, 0),
        (1272, 0, 1, 1, 1272, 1696),
        (0, 1696, 1, 1, 1272, 1696),
        (u32::MAX, 0, 2, 1, u32::MAX, 1696),
        (0, u32::MAX, 1, 2, 1272, u32::MAX),
    ] {
        assert!(
            checked_visible_region(left, top, width, height, visible_width, visible_height)
                .is_err(),
            "accepted {left},{top} {width}x{height} in {visible_width}x{visible_height}"
        );
    }
}

#[test]
fn starts_at_seed_and_advances() {
    let mut markers = UpdateMarkerSequence::from_seed(42);
    assert_eq!(markers.next_marker(), 42);
    assert_eq!(markers.next_marker(), 43);
}

#[test]
fn zero_seed_never_issues_zero() {
    let mut markers = UpdateMarkerSequence::from_seed(0);
    assert_eq!(markers.next_marker(), 1);
    assert_eq!(markers.next_marker(), 2);
}

#[test]
fn wrap_skips_zero() {
    let mut markers = UpdateMarkerSequence::from_seed(u32::MAX);
    assert_eq!(markers.next_marker(), u32::MAX);
    assert_eq!(markers.next_marker(), 1);
    assert_eq!(markers.next_marker(), 2);
}

#[test]
fn pw6_request_is_full_gc16_for_remote_viewport_only() {
    let screen = ScreenLayout::new(1272, 1696).unwrap();
    let request = full_gc16_remote_request(screen, 1272, 1696, 17).unwrap();
    assert_eq!(request.update_region.top, 0);
    assert_eq!(request.update_region.left, 0);
    assert_eq!(request.update_region.width, 1272);
    assert_eq!(request.update_region.height, 1624);
    assert_eq!(request.waveform_mode, 2);
    assert_eq!(request.update_mode, 1);
    assert_eq!(request.update_marker, 17);
    assert_eq!(request.temp, 0x1000);
    assert_eq!(request.hist_bw_waveform_mode, 1);
    assert_eq!(request.hist_gray_waveform_mode, 2);
    assert_eq!(request.flags, 0);
    assert_eq!(request.dither_mode, 0);
    assert_eq!(request.quant_bit, 0);
    assert_eq!(request.alt_buffer_data, Default::default());
    assert_eq!(request.swipe_data, Default::default());
    assert_eq!(request.ts_pxp, 0);
    assert_eq!(request.ts_epdc, 0);
}

#[test]
fn zero_marker_and_invalid_viewports_are_rejected() {
    let screen = ScreenLayout::new(1272, 1696).unwrap();
    assert!(full_gc16_remote_request(screen, 1272, 1696, 0).is_err());
    assert!(full_gc16_remote_request(screen, 1271, 1696, 1).is_err());
    assert!(full_gc16_remote_request(screen, 1272, 1695, 1).is_err());

    let local_only = ScreenLayout::new(100, 40).unwrap();
    assert!(full_gc16_remote_request(local_only, 100, 40, 1).is_err());
    assert_eq!(
        full_gc16_remote_request(screen, 1272, 1696, 0),
        Err(RequestError::ZeroMarker)
    );
}

#[test]
fn only_a_successful_presentation_replaces_the_cached_frame() {
    let mut cache = RemoteFrameCache::new();
    cache.record_presentation(1, 8, 2, "first", false);
    assert!(cache.current().is_none());
    cache.record_presentation(2, 8, 2, "second", true);
    let current = cache.current().expect("cached frame");
    assert_eq!((current.frame_id(), current.dimensions(), *current.payload()), (2, (8, 2), "second"));
    cache.record_presentation(3, 16, 4, "third", false);
    let current = cache.current().expect("cached frame");
    assert_eq!((current.frame_id(), *current.payload()), (2, "second"));
}
