use glassbar::capture::{
    bgra_to_rgba, capture_step, data_url, fit, is_blank, is_scalable, make_opaque, prepare_pixels,
    url_of_png, window_thumbnail_data_url, window_thumbnail_png, Capture, CaptureAction,
    CaptureEvent, CaptureRun, Dib, Held, WindowRect,
};
use glassbar::scale::scale;

#[test]
fn fit_caps_longest_side() {
    assert_eq!(fit(1920, 1080, 480), (480, 270));
    assert_eq!(fit(1080, 1920, 480), (270, 480));
}

#[test]
fn fit_never_upscales() {
    assert_eq!(fit(200, 100, 480), (200, 100));
}

#[test]
fn fit_keeps_at_least_one_pixel() {
    assert_eq!(fit(10_000, 1, 100), (100, 1));
    assert_eq!(fit(5, 3, 0), (1, 1));
    assert_eq!(fit(0, 0, 0), (1, 1));
    assert_eq!(fit(0, 7, 100), (1, 7));
}

#[test]
fn fit_handles_the_largest_sizes() {
    assert_eq!(fit(u32::MAX, u32::MAX, u32::MAX - 1), (u32::MAX - 1, u32::MAX - 1));
    assert_eq!(fit(u32::MAX, 1, 1), (1, 1));
}

fn fit_in_doubles(w: u32, h: u32, max_px: u32) -> (u32, u32) {
    let longest = w.max(h);
    if longest <= max_px {
        return (w.max(1), h.max(1));
    }
    let s = max_px as f64 / longest as f64;
    (((w as f64 * s).round() as u32).max(1), ((h as f64 * s).round() as u32).max(1))
}

#[test]
fn fit_rounds_as_doubles_do() {
    // Halves are where the order of the roundings shows.
    for longest in 2u32..120 {
        for max_px in 0..longest {
            for side in 0..=longest {
                assert_eq!(fit(longest, side, max_px), fit_in_doubles(longest, side, max_px));
            }
        }
    }
    let mut seed: u64 = 0x2545_F491_4F6C_DD1D;
    for _ in 0..20_000 {
        seed ^= seed << 13;
        seed ^= seed >> 7;
        seed ^= seed << 17;
        let w = (seed >> 32) as u32 >> (seed % 20) as u32;
        let h = seed as u32 >> (seed % 23) as u32;
        let max_px = (seed >> 16) as u32 >> (seed % 29) as u32;
        assert_eq!(fit(w, h, max_px), fit_in_doubles(w, h, max_px), "{w} {h} {max_px}");
    }
}

#[test]
fn scaling_the_whole_gives_the_part() {
    assert_eq!(scale(1920, 480, 1920), 480);
    assert_eq!(scale(u32::MAX, 12345, u32::MAX), 12345);
    assert_eq!(scale(0, 3, 7), 0);
    assert_eq!(scale(5, 0, 7), 0);
}

fn start() -> CaptureRun {
    CaptureRun::new()
}

fn finish_error(a: CaptureAction) -> String {
    match a {
        CaptureAction::Finish(Err(e)) => e,
        other => panic!("{other:?}"),
    }
}

const RECT: WindowRect = WindowRect { left: -10, top: 20, right: 310, bottom: 220 };

#[test]
fn capture_goes_through_its_steps() {
    let mut run = start();
    assert!(matches!(capture_step(&mut run, CaptureEvent::Iconic(false)), CaptureAction::QueryRect));
    assert!(matches!(
        capture_step(&mut run, CaptureEvent::Rect(Ok(RECT))),
        CaptureAction::GetScreenDc
    ));
    assert_eq!((run.width, run.height), (320, 200));
    assert!(matches!(
        capture_step(&mut run, CaptureEvent::ScreenDc { valid: true }),
        CaptureAction::CreateMemDc
    ));
    assert!(matches!(
        capture_step(&mut run, CaptureEvent::MemDc { valid: true }),
        CaptureAction::CreateDib { width: 320, height: 200 }
    ));
    let dib = Dib { handle_valid: true, bits_valid: true };
    assert!(matches!(
        capture_step(&mut run, CaptureEvent::Dib(Ok(dib))),
        CaptureAction::Paint { len: 256_000 }
    ));
    assert!(matches!(
        capture_step(&mut run, CaptureEvent::Painted { ok: true }),
        CaptureAction::Finish(Ok(()))
    ));
    assert_eq!(run.held, Held { screen_dc: true, mem_dc: true, dib: true });
}

#[test]
fn capture_names_each_failure() {
    let mut run = start();
    assert_eq!(finish_error(capture_step(&mut run, CaptureEvent::Iconic(true))), "minimized");
    assert_eq!(
        finish_error(capture_step(&mut run, CaptureEvent::Rect(Err("no such window".to_string())))),
        "no such window"
    );
    let flat = WindowRect { bottom: 20, ..RECT };
    assert_eq!(
        finish_error(capture_step(&mut run, CaptureEvent::Rect(Ok(flat)))),
        "zero-size window"
    );
    let reversed = WindowRect { right: -11, ..RECT };
    assert_eq!(
        finish_error(capture_step(&mut run, CaptureEvent::Rect(Ok(reversed)))),
        "zero-size window"
    );
    assert_eq!(
        finish_error(capture_step(&mut run, CaptureEvent::ScreenDc { valid: false })),
        "GetDC failed"
    );
    assert_eq!(
        finish_error(capture_step(&mut run, CaptureEvent::MemDc { valid: false })),
        "CreateCompatibleDC failed"
    );
    assert_eq!(
        finish_error(capture_step(&mut run, CaptureEvent::Dib(Err("out of memory".to_string())))),
        "out of memory"
    );
    assert_eq!(run.held, Held { screen_dc: false, mem_dc: false, dib: false });
    let no_bits = Dib { handle_valid: true, bits_valid: false };
    assert_eq!(
        finish_error(capture_step(&mut run, CaptureEvent::Dib(Ok(no_bits)))),
        "CreateDIBSection failed"
    );
    assert_eq!(run.held, Held { screen_dc: false, mem_dc: false, dib: true });
    assert_eq!(
        finish_error(capture_step(&mut run, CaptureEvent::Painted { ok: false })),
        "PrintWindow returned false"
    );
}

#[test]
fn huge_bitmaps_wrap_their_length() {
    let mut run = start();
    let huge = WindowRect { left: 0, top: 0, right: 0x1_0000, bottom: 0x1_0000 };
    let _ = capture_step(&mut run, CaptureEvent::Rect(Ok(huge)));
    let dib = Dib { handle_valid: true, bits_valid: true };
    assert!(matches!(
        capture_step(&mut run, CaptureEvent::Dib(Ok(dib))),
        CaptureAction::Paint { len: 0 }
    ));
}

#[test]
fn pixels_are_reordered_and_made_opaque() {
    let mut bytes = vec![1, 2, 3, 4, 5, 6, 7, 8, 9, 10];
    bgra_to_rgba(&mut bytes);
    assert_eq!(bytes, vec![3, 2, 1, 4, 7, 6, 5, 8, 9, 10]);
    bgra_to_rgba(&mut bytes);
    assert_eq!(bytes, vec![1, 2, 3, 4, 5, 6, 7, 8, 9, 10]);
    make_opaque(&mut bytes);
    assert_eq!(bytes, vec![1, 2, 3, 255, 5, 6, 7, 255, 9, 10]);
}

#[test]
fn blank_means_no_colour_in_any_pixel() {
    assert!(is_blank(&vec![]));
    assert!(is_blank(&vec![0, 0, 0, 200, 0, 0, 0, 9]));
    assert!(is_blank(&vec![0, 0, 0, 0, 1, 1, 1]));
    assert!(!is_blank(&vec![0, 0, 0, 0, 0, 0, 1, 0]));
    assert!(!is_blank(&vec![0, 1, 0, 0]));
    assert!(!is_blank(&vec![1, 0, 0, 0]));
}

#[test]
fn prepared_pixels_are_red_first_and_opaque() {
    assert_eq!(prepare_pixels(vec![10, 20, 30, 7]), Ok(vec![30, 20, 10, 255]));
    assert_eq!(prepare_pixels(vec![0, 0, 0, 255]), Err("blank capture".to_string()));
}

#[test]
fn data_urls_are_padded_base64() {
    assert_eq!(data_url(&vec![]), "data:image/png;base64,");
    assert_eq!(data_url(&b"M".to_vec()), "data:image/png;base64,TQ==");
    assert_eq!(data_url(&b"Ma".to_vec()), "data:image/png;base64,TWE=");
    assert_eq!(data_url(&b"Man".to_vec()), "data:image/png;base64,TWFu");
    assert_eq!(data_url(&vec![0xfb, 0xff, 0xfe, 0]), "data:image/png;base64,+//+AA==");
}

fn capture(width: u32, height: u32, pixel: [u8; 4]) -> Capture {
    let mut bgra = Vec::new();
    for _ in 0..width * height {
        bgra.extend_from_slice(&pixel);
    }
    Capture { width, height, bgra }
}

#[test]
fn small_captures_keep_their_pixels() {
    let mut c = capture(2, 1, [1, 2, 3, 0]);
    c.bgra[4] = 9;
    let png = window_thumbnail_png(c, 480).unwrap();
    assert_eq!(&png[..8], &[0x89, b'P', b'N', b'G', 13, 10, 26, 10]);
    let img = image::load_from_memory(&png).unwrap().to_rgba8();
    assert_eq!(img.dimensions(), (2, 1));
    assert_eq!(img.into_raw(), vec![3, 2, 1, 255, 3, 2, 9, 255]);
}

#[test]
fn large_captures_are_scaled_down() {
    let png = window_thumbnail_png(capture(64, 36, [200, 100, 50, 0]), 16).unwrap();
    let img = image::load_from_memory(&png).unwrap().to_rgba8();
    assert_eq!(img.dimensions(), (16, 9));
    assert!(img.pixels().all(|p| p.0 == [50, 100, 200, 255]));
}

#[test]
fn captures_that_give_no_thumbnail_say_why() {
    assert_eq!(
        window_thumbnail_png(capture(4, 4, [0, 0, 0, 255]), 480),
        Err("blank capture".to_string())
    );
    let mut short = capture(4, 4, [1, 1, 1, 255]);
    short.bgra.truncate(60);
    assert_eq!(window_thumbnail_png(short, 480), Err("from_raw failed".to_string()));
    assert_eq!(
        window_thumbnail_data_url(Err("minimized".to_string()), 480),
        Some(Err("minimized".to_string()))
    );
    assert_eq!(url_of_png(Err("broken".to_string())), Some(Err("broken".to_string())));
}

#[test]
fn thumbnails_become_data_urls() {
    let png = window_thumbnail_png(capture(8, 8, [9, 9, 9, 9]), 4).unwrap();
    let url = window_thumbnail_data_url(Ok(capture(8, 8, [9, 9, 9, 9])), 4).unwrap().unwrap();
    assert!(url.starts_with("data:image/png;base64,iVBORw0KGgo"));
    assert_eq!(url, data_url(&png));
}

#[test]
fn thumbnails_ignore_the_fourth_byte() {
    let a = window_thumbnail_png(capture(3, 3, [9, 8, 7, 0]), 2).unwrap();
    let b = window_thumbnail_png(capture(3, 3, [9, 8, 7, 77]), 2).unwrap();
    assert_eq!(a, b);
}

#[test]
fn scalable_captures_are_recognised() {
    assert!(is_scalable(&capture(4, 4, [1, 1, 1, 1]), 1280));
    assert!(!is_scalable(&Capture { width: 0, height: 4, bgra: vec![1, 1, 1, 1] }, 1280));
    let wide = capture(0x20_0000, 1, [1, 1, 1, 1]);
    assert!(is_scalable(&wide, 0x20_0000));
    assert!(!is_scalable(&wide, 0x1f_ffff));
    assert!(is_scalable(&wide, 0x10_0000));
}

#[test]
fn pictures_that_are_refused_need_no_scaling() {
    let blank = capture(0x20_0000, 1, [0, 0, 0, 9]);
    assert!(is_scalable(&blank, 0x1f_ffff));
    assert_eq!(window_thumbnail_png(blank, 0x1f_ffff), Err("blank capture".to_string()));
    let short = Capture { width: 0x20_0000, height: u32::MAX, bgra: vec![1, 1, 1, 1] };
    assert!(is_scalable(&short, 0x1f_ffff));
    assert_eq!(
        window_thumbnail_data_url(Ok(short), 0x1f_ffff),
        Some(Err("from_raw failed".to_string()))
    );
}
