use computer_use_linux::backend::dmabuf::{
    after_dma, check_allocation, check_upright, common_modifiers, dma_layout, dma_slot,
    dma_usable, modifier_halves, modifier_of, AfterDma, DmaFormat, Import, INVALID_MODIFIER,
};
use computer_use_linux::backend::frame::{Image, PixelFormat, RawFrame};
use computer_use_linux::backend::portal::{
    await_frame, bind_window, check_binding, check_bound, check_streams, FrameWait, SourceKind,
    WindowFrame,
};
use computer_use_linux::backend::cast_watch::{Cast, CastKind, CastTarget};
use computer_use_linux::backend::wayland::{
    binding, buffer_available, capture_slot, decode_shm, finish_capture, finish_in,
    frame_patience, host_path, input_setup, native_order, same_revision, Bound, BufferKey,
    BufferPool, ByteOrder, Capture, DmaLayout, FrameEvent, InputPhase, InputSetup, Interface,
    Layout, Output, OutputEvent, Outputs, Progress, ShmFormat, Shown, Slot,
};
use computer_use_linux::model::ErrorCode;
use computer_use_linux::picture::{
    orient, oriented_size, publish, published, unpublish, Transform,
};

#[test]
fn shm_stride_and_inversion_are_respected() {
    let bytes = [
        0x00112233u32.to_ne_bytes(),
        [0; 4],
        0x00445566u32.to_ne_bytes(),
        [0; 4],
    ]
    .concat();
    assert_eq!(
        decode_shm(&bytes, ShmFormat::Xrgb8888, 1, 2, 8, true).unwrap(),
        [0x44, 0x55, 0x66, 255, 0x11, 0x22, 0x33, 255]
    );
    assert!(decode_shm(&[], ShmFormat::Xrgb8888, 1, 1, 4, false).is_err());
}

#[test]
fn formats_differ_in_the_place_of_red_and_blue() {
    let bytes = 0xff112233u32.to_ne_bytes();
    for format in [ShmFormat::Argb8888, ShmFormat::Xrgb8888] {
        assert_eq!(
            decode_shm(&bytes, format, 1, 1, 4, false).unwrap(),
            [0x11, 0x22, 0x33, 255]
        );
    }
    for format in [ShmFormat::Abgr8888, ShmFormat::Xbgr8888] {
        assert_eq!(
            decode_shm(&bytes, format, 1, 1, 4, false).unwrap(),
            [0x33, 0x22, 0x11, 255]
        );
    }
    let refused = decode_shm(&bytes, ShmFormat::Other, 1, 1, 4, false).unwrap_err();
    assert_eq!(refused.code, ErrorCode::Unsupported);
}

#[test]
fn this_machine_has_the_order_of_its_words() {
    let little = 1u32.to_ne_bytes()[0] == 1;
    let order = native_order();
    assert_eq!(order == ByteOrder::Little, little);
    assert_eq!(order == ByteOrder::Big, !little);
}

/// Four pixels in a row of two and a row of two, each of one value.
fn square(a: u8, b: u8, c: u8, d: u8) -> Vec<u8> {
    let mut v = vec![];
    for x in [a, b, c, d] {
        v.extend([x, x, x, 255]);
    }
    v
}

#[test]
fn pictures_are_turned_and_mirrored() {
    let turned = |t| orient(square(1, 2, 3, 4), 2, 2, t).0;
    assert_eq!(turned(Transform::Normal), square(1, 2, 3, 4));
    assert_eq!(turned(Transform::Quarter), square(3, 1, 4, 2));
    assert_eq!(turned(Transform::Half), square(4, 3, 2, 1));
    assert_eq!(turned(Transform::ThreeQuarters), square(2, 4, 1, 3));
    assert_eq!(turned(Transform::Flipped), square(2, 1, 4, 3));
    assert_eq!(turned(Transform::FlippedQuarter), square(4, 2, 3, 1));
    assert_eq!(turned(Transform::FlippedHalf), square(3, 4, 1, 2));
    assert_eq!(turned(Transform::FlippedThreeQuarters), square(1, 3, 2, 4));
}

#[test]
fn a_quarter_turn_exchanges_width_and_height() {
    let row = vec![1, 1, 1, 255, 2, 2, 2, 255];
    let (pixels, width, height) = orient(row.clone(), 2, 1, Transform::Quarter);
    assert_eq!((width, height), (1, 2));
    assert_eq!(pixels, row);
    assert_eq!(oriented_size(2, 1, Transform::FlippedThreeQuarters), (1, 2));
    assert_eq!(oriented_size(2, 1, Transform::Half), (2, 1));
}

#[test]
fn published_pictures_are_png_files() {
    let (text, width, height) = publish(vec![10, 20, 30, 255], 1, 1).unwrap();
    assert_eq!((width, height), (1, 1));
    let file = unpublish(&text).unwrap();
    assert_eq!(&file[..8], b"\x89PNG\r\n\x1a\n");
    let read = image::load_from_memory(&file).unwrap().to_rgba8();
    assert_eq!(read.into_raw(), vec![10, 20, 30, 255]);
}

#[test]
fn base64_is_the_standard_one() {
    let text = |data: &[u8]| published(Ok(data.to_vec()), 1, 1).unwrap().0;
    assert_eq!(text(b""), "");
    assert_eq!(text(b"f"), "Zg==");
    assert_eq!(text(b"fo"), "Zm8=");
    assert_eq!(text(b"foo"), "Zm9v");
    assert_eq!(text(&[0xfb, 0xff, 0xfe]), "+//+");
    for data in [&b""[..], b"f", b"fo", b"foo", b"foob", &[0, 255, 254]] {
        assert_eq!(unpublish(&text(data)).unwrap(), data);
    }
    for bad in ["Zg", "Zg=", "Zh==", "Z", "Zm9v!", "猫"] {
        assert!(unpublish(bad).is_none());
    }
    let failed = published(Err("broken".into()), 1, 1).unwrap_err();
    assert_eq!(failed.code, ErrorCode::BackendUnavailable);
    assert_eq!(failed.message, "broken");
}

#[test]
fn frames_are_shown_directly_where_they_can_be() {
    let capture = |format, inverted| Capture {
        bytes: &[1, 2, 3, 4],
        format,
        width: 1,
        height: 1,
        stride: 4,
        inverted,
    };
    let shown = finish_in(
        &capture(ShmFormat::Xrgb8888, false),
        Transform::Normal,
        ByteOrder::Little,
    );
    assert!(matches!(shown, Ok(Shown::Direct(PixelFormat::Bgrx))));
    let turned = finish_in(
        &capture(ShmFormat::Xrgb8888, false),
        Transform::Half,
        ByteOrder::Little,
    );
    match turned {
        Ok(Shown::Converted(pixels, 1, 1)) => assert_eq!(pixels, [3, 2, 1, 255]),
        _ => panic!("a turned picture is converted"),
    }
    let inverted = finish_in(
        &capture(ShmFormat::Argb8888, true),
        Transform::Normal,
        ByteOrder::Little,
    );
    assert!(matches!(inverted, Ok(Shown::Converted(_, 1, 1))));
    assert!(finish_capture(&capture(ShmFormat::Other, true), Transform::Normal).is_err());
}

#[test]
fn raw_frames_become_pictures_without_their_padding() {
    let pixels = [1, 2, 3, 4, 9, 9, 9, 9, 5, 6, 7, 8, 9, 9, 9, 9];
    let frame = |format| RawFrame { pixels: &pixels, width: 1, height: 2, stride: 8, format };
    assert_eq!(frame(PixelFormat::Rgba).rgba(), [1, 2, 3, 255, 5, 6, 7, 255]);
    assert_eq!(frame(PixelFormat::Bgrx).rgba(), [3, 2, 1, 255, 7, 6, 5, 255]);
    let torn = RawFrame {
        pixels: &pixels[..12],
        width: 1,
        height: 2,
        stride: 8,
        format: PixelFormat::Rgbx,
    };
    assert_eq!(torn.rgba(), [1, 2, 3, 255, 0, 0, 0, 0]);
    let memory = Image::Memory { width: 3, height: 4 };
    assert_eq!((memory.size(), memory.transport()), ((3, 4), "SHM"));
    let dma = Image::Dma { width: 5, height: 6 };
    assert_eq!((dma.size(), dma.transport()), ((5, 6), "DMA-BUF"));
}

#[test]
fn window_frames_must_be_whole() {
    let frame = |plane, width, height, stride| WindowFrame { plane, width, height, stride };
    let bytes: Vec<u8> = (0..24).collect();
    assert_eq!(
        frame(&bytes, 1, 2, 8).pixels().unwrap(),
        [0, 1, 2, 3, 8, 9, 10, 11]
    );
    let message = |f: WindowFrame| f.pixels().unwrap_err().message;
    assert_eq!(message(frame(&bytes, 0, 2, 8)), "窗口图像尺寸无效");
    assert_eq!(message(frame(&bytes, 1, 16385, 8)), "窗口图像尺寸无效");
    assert_eq!(message(frame(&bytes, 2, 2, 7)), "窗口图像步长或大小无效");
    assert_eq!(message(frame(&bytes, 16384, 16384, 65536)), "窗口图像步长或大小无效");
    assert_eq!(message(frame(&bytes[..10], 1, 2, 8)), "窗口图像行不完整");
    assert_eq!(message(frame(&bytes[..8], 1, 2, 8)), "窗口图像缓冲区长度无效");
    let (text, 1, 2) = frame(&bytes, 1, 2, 8).published().unwrap() else {
        panic!("a window frame keeps its size")
    };
    let file = unpublish(&text).unwrap();
    assert_eq!(
        image::load_from_memory(&file).unwrap().to_rgba8().into_raw(),
        [0, 1, 2, 3, 8, 9, 10, 11]
    );
}

fn cast(stream_id: u64, node: u32, target: CastTarget) -> Cast {
    Cast {
        stream_id,
        session_id: 2,
        kind: CastKind::PipeWire,
        target,
        is_dynamic_target: false,
        pw_node_id: Some(node),
    }
}

#[test]
fn a_stream_must_show_the_authorized_window() {
    let right = cast(1, 4, CastTarget::Window { id: 3 });
    let other = cast(2, 5, CastTarget::Output { name: "eDP-1".into() });
    let list = vec![right.clone(), other.clone()];
    assert_eq!(bind_window(&list, 4, 3).unwrap().stream_id, 1);
    assert_eq!(bind_window(&list, 5, 3).unwrap_err().code, ErrorCode::PermissionDenied);
    assert!(bind_window(&list, 6, 3).is_err());
    let twice = vec![right.clone(), cast(9, 4, CastTarget::Window { id: 3 })];
    assert!(bind_window(&twice, 4, 3).is_err());
    let mut moving = right.clone();
    moving.is_dynamic_target = true;
    assert!(bind_window(&vec![moving], 4, 3).is_err());
    assert!(check_binding(&list, 1, 4, 3).is_ok());
    assert_eq!(check_binding(&list, 2, 4, 3).unwrap_err().code, ErrorCode::StaleTarget);
    assert!(check_binding(&vec![cast(1, 4, CastTarget::Nothing)], 1, 4, 3).is_err());
}

#[test]
fn one_window_must_be_chosen() {
    assert!(check_streams(&vec![SourceKind::Window]).is_ok());
    assert!(check_streams(&vec![]).is_err());
    assert!(check_streams(&vec![SourceKind::Other]).is_err());
    assert!(check_streams(&vec![SourceKind::Window, SourceKind::Window]).is_err());
    assert!(check_bound(true, true).is_ok());
    assert_eq!(check_bound(false, true).unwrap_err().message, "截图流尚未绑定获准窗口");
    assert_eq!(check_bound(true, false).unwrap_err().message, "窗口流没有生命周期监视");
    assert!(matches!(await_frame(None, true, true), Ok(FrameWait::Take)));
    assert!(matches!(await_frame(None, false, false), Ok(FrameWait::Wait)));
    assert_eq!(await_frame(None, false, true).unwrap_err().message, "窗口图像采集超时");
    assert_eq!(
        await_frame(Some("eos"), true, false).unwrap_err().message,
        "窗口采集流已结束：eos"
    );
}

fn layout(width: u32, height: u32, stride: u32) -> Layout {
    Layout { format: ShmFormat::Xrgb8888, width, height, stride }
}

#[test]
fn events_of_earlier_captures_are_ignored() {
    let mut progress = Progress::new();
    let first = progress.begin();
    let second = progress.begin();
    assert_ne!(first, second);
    progress.event(first, FrameEvent::Failed);
    assert!(progress.negotiation(3).is_none());
    progress.event(second, FrameEvent::Buffer(layout(2, 2, 8)));
    assert!(progress.negotiation(2).unwrap().is_ok());
    assert!(progress.negotiation(3).is_none());
    progress.event(second, FrameEvent::BufferDone);
    assert!(progress.negotiation(3).unwrap().is_ok());
    assert!(progress.copied(false, false).is_none());
    progress.event(second, FrameEvent::Ready);
    assert!(progress.copied(false, false).unwrap().is_ok());
    assert!(progress.copied(true, false).is_none());
    assert!(progress.copied_dma(true).unwrap().is_ok());
    progress.event(second, FrameEvent::Failed);
    assert_eq!(progress.copied(true, true).unwrap().unwrap_err().message, "截图传输失败");
    assert_eq!(progress.negotiation(3).unwrap().unwrap_err().message, "截图被合成器拒绝");
}

#[test]
fn buffers_are_bounded_and_reused() {
    assert_eq!(layout(2, 3, 8).buffer_size().unwrap(), 24);
    for bad in [layout(0, 1, 4), layout(16385, 1, 65540), layout(2, 1, 7)] {
        assert_eq!(bad.buffer_size().unwrap_err().message, "截图尺寸超出限制");
    }
    assert!(layout(16384, 16384, 65536).buffer_size().is_err());
    let key = BufferKey::Shm(layout(2, 2, 8));
    let mut pool: BufferPool<char> = BufferPool::new();
    assert!(matches!(capture_slot(&pool, &vec![]), Ok(Slot::Create)));
    for c in ['a', 'b', 'c', 'd'] {
        pool.add(key, c);
    }
    let busy = capture_slot(&pool, &vec![false; 4]).err().unwrap();
    assert_eq!(busy.code, ErrorCode::Busy);
    assert!(matches!(
        capture_slot(&pool, &vec![false, true, true, false]),
        Ok(Slot::Reuse(1))
    ));
    assert!(dma_slot(&pool, &vec![false; 4]).is_err());
    pool.retain(BufferKey::Shm(layout(3, 2, 12)));
    assert!(pool.buffers.is_empty());
    pool.add(key, 'e');
    pool.clear();
    assert!(pool.buffers.is_empty());
    assert!(buffer_available(true, 1));
    assert!(!buffer_available(true, 2));
    assert!(!buffer_available(false, 1));
    assert_eq!(frame_patience(true), 3600);
    assert_eq!(frame_patience(false), 4);
}

#[test]
fn outputs_have_revisions() {
    let mut outputs = Outputs::new();
    outputs.announce(7);
    outputs.announce(3);
    assert_eq!(outputs.first().unwrap().global, 3);
    assert_eq!(outputs.first().unwrap().name, "output-3");
    let revision = outputs.revision;
    outputs.update(7, OutputEvent::Name("eDP-1".into()));
    assert_ne!(outputs.revision, revision);
    let revision = outputs.revision;
    outputs.update(7, OutputEvent::Name("eDP-1".into()));
    assert_eq!(outputs.revision, revision);
    outputs.update(7, OutputEvent::Mode { current: true, width: 1920, height: -1 });
    outputs.update(7, OutputEvent::Mode { current: false, width: 1, height: 1 });
    outputs.update(7, OutputEvent::Geometry(Transform::Quarter));
    outputs.update(7, OutputEvent::Scale(2));
    let o: Output = outputs.named("eDP-1").unwrap();
    assert_eq!((o.width, o.height, o.scale), (1920, 0, 2));
    assert_eq!(o.image_size(), (0, 1920));
    assert_eq!(outputs.named("HDMI-1").unwrap_err().message, "显示器已移除");
    let revision = outputs.revision;
    assert!(outputs.retract(7));
    assert_ne!(outputs.revision, revision);
    assert!(!outputs.retract(7));
}

#[test]
fn interfaces_are_bound_in_known_versions() {
    assert!(matches!(binding("wl_output", 9, false), Some((Interface::Output, 4))));
    assert!(matches!(binding("wl_seat", 5, false), Some((Interface::Seat, 5))));
    assert!(binding("wl_seat", 5, true).is_none());
    assert!(binding("zwp_linux_dmabuf_v1", 2, false).is_none());
    assert!(matches!(
        binding("zwp_linux_dmabuf_v1", 4, false),
        Some((Interface::Dmabuf, 3))
    ));
    assert!(matches!(binding("wl_shm", 2, true), Some((Interface::Shm, 1))));
    assert!(binding("wl_compositor", 1, true).is_none());
    let all =
        Bound { seat: true, shm: true, screencopy: true, pointers: Some(2), keyboards: true };
    assert!(all.input_supported() && all.capture_supported());
    let old =
        Bound { seat: true, shm: false, screencopy: true, pointers: Some(1), keyboards: true };
    assert!(!old.input_supported() && !old.capture_supported());
    assert!(matches!(input_setup(Some(4), 4, &old), Ok(InputSetup::Keep)));
    assert!(matches!(input_setup(Some(4), 5, &all), Ok(InputSetup::NewPointer)));
    assert!(matches!(input_setup(None, 5, &all), Ok(InputSetup::NewDevices)));
    assert_eq!(
        input_setup(None, 5, &old).unwrap_err().message,
        "合成器缺少虚拟输入协议"
    );
    assert!(same_revision(1, 1, InputPhase::Sending).is_ok());
    assert_eq!(
        same_revision(1, 2, InputPhase::Setup).unwrap_err().code,
        ErrorCode::StaleTarget
    );
}

#[test]
fn the_display_is_below_the_runtime_directory() {
    let bytes = |s: &str| Some(s.as_bytes().to_vec());
    assert_eq!(
        host_path(bytes("wayland-1"), bytes("/run/user/1000")).unwrap(),
        b"/run/user/1000/wayland-1"
    );
    assert_eq!(host_path(bytes("/tmp/w"), None).unwrap(), b"/tmp/w");
    assert_eq!(host_path(None, None).unwrap_err().message, "缺少 WAYLAND_DISPLAY");
    assert_eq!(host_path(bytes("w"), None).unwrap_err().message, "缺少 XDG_RUNTIME_DIR");
}

#[test]
fn buffers_are_shared_in_a_format_of_both() {
    let format = |fourcc, modifier| DmaFormat { fourcc, modifier };
    let compositor = vec![format(1, 10), format(1, 11), format(2, 12)];
    let toolkit = vec![format(1, 11), format(1, 10), format(2, 13)];
    assert_eq!(common_modifiers(1, &compositor, &toolkit).unwrap(), [10, 11]);
    assert!(common_modifiers(2, &compositor, &toolkit).is_err());
    assert!(dma_usable(true, &toolkit, true));
    assert!(!dma_usable(false, &toolkit, true));
    assert!(!dma_usable(true, &vec![], true));
    assert!(!dma_usable(true, &toolkit, false));
    assert!(check_upright(Transform::Normal).is_ok());
    assert!(check_upright(Transform::Flipped).is_err());
    assert!(dma_layout(None).is_err());
    let offered = DmaLayout { fourcc: 1, width: 8192, height: 2048 };
    assert!(dma_layout(Some(offered)).is_ok());
    assert!(dma_layout(Some(DmaLayout { fourcc: 1, width: 8192, height: 2049 })).is_err());
    assert!(check_allocation(format(1, 10), 1, &toolkit).is_ok());
    assert!(check_allocation(format(1, INVALID_MODIFIER), 1, &toolkit).is_err());
    assert!(check_allocation(format(1, 10), 0, &toolkit).is_err());
    assert!(check_allocation(format(1, 10), 5, &toolkit).is_err());
    assert!(check_allocation(format(3, 10), 1, &toolkit).is_err());
}

#[test]
fn modifiers_travel_in_halves() {
    assert_eq!(modifier_of(1, 2), 0x1_0000_0002);
    for m in [0, 1, u64::MAX, 0x0123_4567_89ab_cdef] {
        let (high, low) = modifier_halves(m);
        assert_eq!(modifier_of(high, low), m);
    }
}

#[test]
fn only_the_current_import_counts() {
    let mut import = Import::new();
    let first = import.begin();
    let second = import.begin();
    assert!(!import.finished(first, true));
    assert!(import.result().is_none());
    assert!(import.finished(second, false));
    assert!(import.result().unwrap().is_err());
    let third = import.begin();
    assert!(import.result().is_none());
    assert!(import.finished(third, true));
    assert!(import.result().unwrap().is_ok());
    assert!(matches!(after_dma(None), AfterDma::Keep));
    assert!(matches!(after_dma(Some(ErrorCode::Paused)), AfterDma::Keep));
    assert!(matches!(after_dma(Some(ErrorCode::BackendUnavailable)), AfterDma::FallBack));
}
