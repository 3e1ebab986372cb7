use std::io::{Cursor, Read};

use rustconvert::archive::{ArchiveBuilder, Compression};
use rustconvert::icons::{app_icon_set, build_app_icons};
use rustconvert::pages::{page_entry_name, select_pages, sort_names, PageArchive};

fn methods(bytes: Vec<u8>) -> Vec<zip::CompressionMethod> {
    let mut zip = zip::ZipArchive::new(Cursor::new(bytes)).unwrap();
    (0..zip.len()).map(|i| zip.by_index(i).unwrap().compression()).collect()
}

fn entries(bytes: Vec<u8>) -> Vec<(String, Vec<u8>)> {
    let mut zip = zip::ZipArchive::new(Cursor::new(bytes)).unwrap();
    let mut out = Vec::new();
    for i in 0..zip.len() {
        let mut f = zip.by_index(i).unwrap();
        let mut data = Vec::new();
        f.read_to_end(&mut data).unwrap();
        out.push((f.name().to_string(), data));
    }
    out
}

fn strings(v: &[&str]) -> Vec<String> {
    v.iter().map(|s| s.to_string()).collect()
}

#[test]
fn page_names_count_from_one() {
    assert_eq!(page_entry_name(0, "jpg"), "page-1.jpg");
    assert_eq!(page_entry_name(9, "png"), "page-10.png");
    assert_eq!(page_entry_name(122, "png"), "page-123.png");
}

#[test]
fn pages_are_filtered_and_sorted() {
    let id = "67e55044-10b1-426f-9247-bb680e5fe0c8";
    let names = strings(&[
        "67e55044-10b1-426f-9247-bb680e5fe0c8-10.jpg",
        "67e55044-10b1-426f-9247-bb680e5fe0c8.pdf",
        "67e55044-10b1-426f-9247-bb680e5fe0c8-02.jpg",
        "other-01.jpg",
        "67e55044-10b1-426f-9247-bb680e5fe0c8-01.jpg",
        "67e55044-10b1-426f-9247-bb680e5fe0c8-03.png",
        "",
    ]);
    let pages = select_pages(&names, id, "jpg").ok().unwrap();
    assert_eq!(
        pages,
        strings(&[
            "67e55044-10b1-426f-9247-bb680e5fe0c8-01.jpg",
            "67e55044-10b1-426f-9247-bb680e5fe0c8-02.jpg",
            "67e55044-10b1-426f-9247-bb680e5fe0c8-10.jpg",
        ])
    );
}

#[test]
fn a_page_name_needs_the_dash_after_the_id() {
    let names = strings(&["U-1.png", "U.png", "U-.png", "Ux-2.png", "U-3.png.bak"]);
    let pages = select_pages(&names, "U", "png").ok().unwrap();
    assert_eq!(pages, strings(&["U-.png", "U-1.png"]));
    let only = strings(&["U.png"]);
    let e = select_pages(&only, "U", "png").err().unwrap();
    assert_eq!((e.status, e.message.as_str()), (500, "Không sinh được trang ảnh nào"));
}

#[test]
fn no_page_is_a_server_error() {
    let names = strings(&["abc.pdf", "abc-1.png"]);
    let e = select_pages(&names, "abc", "jpg").err().unwrap();
    assert_eq!((e.status, e.message.as_str()), (500, "Không sinh được trang ảnh nào"));
    let e = select_pages(&Vec::new(), "abc", "jpg").err().unwrap();
    assert_eq!(e.status, 500);
}

#[test]
fn sorting_matches_std() {
    let v = strings(&["b", "a", "ab", "", "é", "a", "Z"]);
    let mut expected = v.clone();
    expected.sort();
    assert_eq!(sort_names(v), expected);
}

#[test]
fn page_archive_holds_pages_in_order() {
    let mut a = PageArchive::new("jpg".to_string());
    a.add_page(b"first").ok().unwrap();
    a.add_page(b"second").ok().unwrap();
    a.add_page(b"").ok().unwrap();
    assert_eq!(a.count, 3);
    let bytes = a.finish().ok().unwrap();
    assert!(methods(bytes.clone()).iter().all(|m| *m == zip::CompressionMethod::Deflated));
    assert_eq!(
        entries(bytes),
        vec![
            ("page-1.jpg".to_string(), b"first".to_vec()),
            ("page-2.jpg".to_string(), b"second".to_vec()),
            ("page-3.jpg".to_string(), Vec::new()),
        ]
    );
}

#[test]
fn archive_builder_stores_entries() {
    for method in [Compression::Stored, Compression::Deflated] {
        let mut b = ArchiveBuilder::new(method);
        b.add_entry("a/x.txt", b"hello hello hello").ok().unwrap();
        b.add_entry("y.bin", &[0, 1, 2]).ok().unwrap();
        let bytes = b.finish().ok().unwrap();
        let want = match method {
            Compression::Stored => zip::CompressionMethod::Stored,
            Compression::Deflated => zip::CompressionMethod::Deflated,
        };
        assert_eq!(methods(bytes.clone()), vec![want, want]);
        assert_eq!(
            entries(bytes),
            vec![
                ("a/x.txt".to_string(), b"hello hello hello".to_vec()),
                ("y.bin".to_string(), vec![0, 1, 2]),
            ]
        );
    }
}

#[test]
fn duplicate_entry_names_are_a_server_error() {
    let mut b = ArchiveBuilder::new(Compression::Deflated);
    b.add_entry("x", b"1").ok().unwrap();
    let e = b.add_entry("x", b"2").err().unwrap();
    assert_eq!(e.status, 500);
}

#[test]
fn icon_set_has_ios_and_android_sizes() {
    let icons = app_icon_set();
    assert_eq!(icons.len(), 21);
    assert_eq!(icons[0], ("ios/Icon-20.png", 20));
    assert_eq!(icons[13], ("ios/Icon-83.5@2x.png", 167));
    assert_eq!(icons[14], ("ios/Icon-1024.png", 1024));
    assert_eq!(icons[20], ("android/playstore-512.png", 512));
    assert_eq!(icons.iter().filter(|(n, _)| n.starts_with("ios/")).count(), 15);
    assert_eq!(icons.iter().filter(|(n, _)| n.starts_with("android/")).count(), 6);
}

fn tiny_png() -> Vec<u8> {
    let img = image::RgbaImage::from_pixel(3, 2, image::Rgba([200, 10, 10, 255]));
    let mut buf = Cursor::new(Vec::new());
    image::DynamicImage::ImageRgba8(img).write_to(&mut buf, image::ImageFormat::Png).unwrap();
    buf.into_inner()
}

#[test]
fn app_icons_from_a_png() {
    let bytes = build_app_icons(&tiny_png()).ok().unwrap();
    assert!(methods(bytes.clone()).iter().all(|m| *m == zip::CompressionMethod::Deflated));
    let got = entries(bytes);
    let icons = app_icon_set();
    assert_eq!(got.len(), icons.len());
    for ((name, data), (want_name, side)) in got.iter().zip(icons.iter()) {
        assert_eq!(name, want_name);
        let icon = image::load_from_memory(data).unwrap();
        assert_eq!((icon.width(), icon.height()), (*side, *side));
        assert_eq!(image::guess_format(data).unwrap(), image::ImageFormat::Png);
    }
}

#[test]
fn undecodable_picture_is_refused() {
    let e = build_app_icons(b"not an image").err().unwrap();
    assert_eq!(e.status, 400);
    assert!(e.message.starts_with("Không đọc được ảnh: "));
    assert!(e.message.len() > "Không đọc được ảnh: ".len());
}
