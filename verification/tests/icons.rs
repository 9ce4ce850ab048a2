use std::io::Cursor;

use pashari::icons::{EditorBtn, Icon, IconSet, Tool};

fn png(w: u32, h: u32, rgba: [u8; 4]) -> Vec<u8> {
    let img = image::RgbaImage::from_pixel(w, h, image::Rgba(rgba));
    let mut out = Vec::new();
    img.write_to(&mut Cursor::new(&mut out), image::ImageFormat::Png).unwrap();
    out
}

const ALL: [EditorBtn; 13] = [
    EditorBtn::Tool(Tool::Select),
    EditorBtn::Tool(Tool::Arrow),
    EditorBtn::Tool(Tool::Polyline),
    EditorBtn::Tool(Tool::Draw),
    EditorBtn::Tool(Tool::Rect),
    EditorBtn::Tool(Tool::Ellipse),
    EditorBtn::Tool(Tool::Text),
    EditorBtn::Tool(Tool::NumberMarker),
    EditorBtn::Tool(Tool::Guide),
    EditorBtn::Tool(Tool::Mosaic),
    EditorBtn::Pin,
    EditorBtn::Save,
    EditorBtn::Copy,
];

#[test]
fn load_decodes_all_thirteen_icons_without_panicking() {
    let files: Vec<Vec<u8>> = (0..13u32).map(|i| png(8 + i, 4, [i as u8, 2, 3, 255])).collect();
    let refs: Vec<&[u8]> = files.iter().map(|f| f.as_slice()).collect();
    let set = IconSet::load(&refs).expect("all icons decode");
    for (i, btn) in ALL.into_iter().enumerate() {
        let icon = set.get(btn);
        assert_eq!(icon.pixels.len(), icon.w * icon.h);
        assert!(icon.w > 0 && icon.h > 0);
        assert_eq!(icon.w, 8 + i);
    }
}

#[test]
fn load_refuses_wrong_count_or_bad_file() {
    let good = png(2, 2, [0, 0, 0, 0]);
    let twelve: Vec<&[u8]> = (0..12).map(|_| good.as_slice()).collect();
    assert!(IconSet::load(&twelve).is_none());
    let mut thirteen: Vec<&[u8]> = (0..13).map(|_| good.as_slice()).collect();
    thirteen[5] = b"not an image";
    assert!(IconSet::load(&thirteen).is_none());
}

#[test]
fn decode_packs_pixels_as_argb() {
    let icon = Icon::decode(&png(2, 1, [0x11, 0x22, 0x33, 0x80])).unwrap();
    assert_eq!((icon.w, icon.h), (2, 1));
    assert_eq!(icon.pixels, vec![0x8011_2233, 0x8011_2233]);
    assert!(Icon::decode(&[1, 2, 3]).is_none());
}

#[test]
fn from_rgba_checks_the_buffer_size() {
    assert!(Icon::from_rgba(2, 2, &[0; 15]).is_none());
    let icon = Icon::from_rgba(1, 1, &[1, 2, 3, 4]).unwrap();
    assert_eq!(icon.pixels, vec![0x0401_0203]);
}
