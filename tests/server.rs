use base64::Engine;
use media_share::error::ServerError;
use media_share::qr::{png_data_uri, qr_data_uri, rasterize, QrGrid, SCALE};
use media_share::session::{server_info, server_url, ServerManager};

#[test]
fn second_start_is_refused() {
    let mut m: ServerManager<u32> = ServerManager::new();
    assert!(!m.is_running());
    assert_eq!(m.check_idle(), Ok(()));
    assert_eq!(m.start(1), Ok(()));
    assert!(m.is_running());
    assert_eq!(m.check_idle(), Err(ServerError::AlreadyRunning));
    assert_eq!(m.start(2), Err(ServerError::AlreadyRunning));
    assert!(m.is_running());
    assert_eq!(m.stop(), Some(1));
}

#[test]
fn stop_is_idempotent() {
    let mut m: ServerManager<u32> = ServerManager::new();
    assert_eq!(m.stop(), None);
    assert!(!m.is_running());
    assert_eq!(m.start(7), Ok(()));
    assert_eq!(m.stop(), Some(7));
    assert_eq!(m.stop(), None);
    assert!(!m.is_running());
    assert_eq!(m.start(8), Ok(()));
    assert_eq!(m.stop(), Some(8));
}

#[test]
fn info_without_address_fails() {
    assert!(matches!(server_info(None, 8080), Err(ServerError::AddressResolution)));
}

#[test]
fn failed_bind_leaves_slot_idle() {
    let mut m: ServerManager<u32> = ServerManager::new();
    assert_eq!(m.start_bound(None), Err(ServerError::Bind));
    assert!(!m.is_running());
    assert_eq!(m.start_bound(Some(3)), Ok(()));
    assert_eq!(m.start_bound(None), Err(ServerError::AlreadyRunning));
    assert_eq!(m.start_bound(Some(4)), Err(ServerError::AlreadyRunning));
    assert_eq!(m.stop(), Some(3));
}

#[test]
fn error_messages() {
    assert_eq!(ServerError::AlreadyRunning.message(), "Server is already running");
    assert!(!ServerError::Bind.message().is_empty());
    assert!(!ServerError::AddressResolution.message().is_empty());
    assert!(!ServerError::Encoding.message().is_empty());
}

#[test]
fn url_of_server() {
    assert_eq!(server_url("192.168.1.5", 8080), "http://192.168.1.5:8080");
    assert_eq!(server_url("10.0.0.1", 0), "http://10.0.0.1:0");
    assert_eq!(server_url("10.0.0.1", 65535), "http://10.0.0.1:65535");
    assert_eq!(server_url("::1", 9), "http://::1:9");
}

#[test]
fn raster_scales_each_module() {
    let grid = QrGrid { width: 2, dark: vec![true, false, false, true] };
    let px = rasterize(&grid);
    let side = 2 * SCALE;
    assert_eq!(px.len(), side * side);
    for y in 0..side {
        for x in 0..side {
            let dark = (x / SCALE) == (y / SCALE);
            assert_eq!(px[y * side + x], if dark { 0 } else { 255 }, "({}, {})", x, y);
        }
    }
}

#[test]
fn raster_is_not_transposed() {
    let grid = QrGrid { width: 2, dark: vec![false, true, false, false] };
    let px = rasterize(&grid);
    let side = 2 * SCALE;
    assert_eq!(px[0 * side + SCALE], 0);
    assert_eq!(px[SCALE * side], 255);
}

#[test]
fn raster_of_empty_grid() {
    assert!(rasterize(&QrGrid { width: 0, dark: Vec::new() }).is_empty());
}

#[test]
fn data_uri_prefix() {
    assert_eq!(png_data_uri("QUJD"), "data:image/png;base64,QUJD");
    assert_eq!(png_data_uri(""), "data:image/png;base64,");
}

fn decode_png(uri: &str) -> image::GrayImage {
    let b64 = uri.strip_prefix("data:image/png;base64,").expect("data URI prefix");
    let bytes = base64::engine::general_purpose::STANDARD.decode(b64).expect("base64");
    assert_eq!(&bytes[..8], &[0x89, b'P', b'N', b'G', 0x0d, 0x0a, 0x1a, 0x0a]);
    image::load_from_memory_with_format(&bytes, image::ImageFormat::Png).expect("png").to_luma8()
}

#[test]
fn qr_image_is_a_scaled_symbol() {
    let uri = qr_data_uri("http://192.168.1.5:8080").unwrap();
    let img = decode_png(&uri);
    assert_eq!(img.width(), img.height());
    assert_eq!(img.width() % 4, 0);
    let modules = img.width() / 4;
    assert!(modules >= 21 && (modules - 21) % 4 == 0);
    // Finder pattern in the top left corner: dark border, light ring, dark core.
    assert_eq!(img.get_pixel(0, 0)[0], 0);
    assert_eq!(img.get_pixel(3, 3)[0], 0);
    assert_eq!(img.get_pixel(4, 4)[0], 255);
    assert_eq!(img.get_pixel(12, 12)[0], 0);
    for p in img.pixels() {
        assert!(p[0] == 0 || p[0] == 255);
    }
}

#[test]
fn qr_of_too_long_text_fails() {
    let text = "x".repeat(5000);
    assert!(matches!(qr_data_uri(&text), Err(ServerError::Encoding)));
}

#[test]
fn info_of_started_server() {
    let info = server_info(Some("192.168.1.5".to_string()), 8080).unwrap();
    assert_eq!(info.ip, "192.168.1.5");
    assert_eq!(info.port, 8080);
    assert_eq!(info.qr_code, qr_data_uri("http://192.168.1.5:8080").unwrap());
    let img = decode_png(&info.qr_code);
    assert!(img.width() >= 84);
}

#[test]
fn info_fails_when_url_is_too_long() {
    let ip = "host".repeat(1000);
    assert!(matches!(server_info(Some(ip), 80), Err(ServerError::Encoding)));
}
