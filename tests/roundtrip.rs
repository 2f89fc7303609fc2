use base64::Engine;
use media_share::qr::{qr_data_uri, SCALE};
use qr_code::decode::{BitGrid, Grid};

/// The modules of a raster, read at the top-left pixel of each block.
struct Sampled {
    img: image::GrayImage,
    size: usize,
}

impl BitGrid for Sampled {
    fn size(&self) -> usize {
        self.size
    }

    fn bit(&self, y: usize, x: usize) -> bool {
        self.img.get_pixel((x * SCALE) as u32, (y * SCALE) as u32)[0] == 0
    }
}

fn read_back(uri: &str) -> String {
    let b64 = uri.strip_prefix("data:image/png;base64,").unwrap();
    let bytes = base64::engine::general_purpose::STANDARD.decode(b64).unwrap();
    let img = image::load_from_memory_with_format(&bytes, image::ImageFormat::Png).unwrap().to_luma8();
    let size = img.width() as usize / SCALE;
    let (_, text) = Grid::new(Sampled { img, size }).decode().unwrap();
    text
}

#[test]
fn qr_round_trip_url() {
    let url = "http://192.168.1.5:8080";
    assert_eq!(read_back(&qr_data_uri(url).unwrap()), url);
}

#[test]
fn qr_round_trip_other_texts() {
    for text in ["http://10.0.0.254:65535", "http://[fe80::1]:3000", "a", "HELLO 123"] {
        assert_eq!(read_back(&qr_data_uri(text).unwrap()), text);
    }
}
