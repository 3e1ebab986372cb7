//! The iOS and Android app-icon set made from one uploaded picture.

use vstd::prelude::*;
use image::{DynamicImage, ImageError};
use std::io::Cursor;
use crate::archive::{
    ArchiveBuilder, Compression, archive_entries, archive_failure, archive_method, entry_names,
    lemma_limits_of_prefix, stored_with, within_plain_limits, zip_read_entries,
};
use crate::error::{AppError, Failure, answers, INTERNAL_SERVER_ERROR};

verus! {

#[verifier::external_type_specification]
#[verifier::external_body]
pub struct ExDynamicImage(DynamicImage);

#[verifier::external_type_specification]
#[verifier::external_body]
pub struct ExImageError(ImageError);

/// The resampling filters of the `image` crate.
#[derive(Clone, Copy, Debug, PartialEq, Eq, Structural)]
pub enum ResizeFilter {
    Nearest,
    Triangle,
    CatmullRom,
    Gaussian,
    Lanczos3,
}

/// The encodings that this build of the `image` crate can write.
#[derive(Clone, Copy, Debug, PartialEq, Eq, Structural)]
pub enum PictureFormat {
    Png,
    Jpeg,
}

/// The picture that `image::load_from_memory` decodes from these bytes, if any.
pub uninterp spec fn decoded(data: Seq<u8>) -> Option<DynamicImage>;

/// The picture that `DynamicImage::resize_exact` makes of `img`.
pub uninterp spec fn resized(img: DynamicImage, width: u32, height: u32, filter: ResizeFilter) -> DynamicImage;

/// The bytes that `DynamicImage::write_to` writes for `img` in `format`, if it succeeds.
pub uninterp spec fn encoded(img: DynamicImage, format: PictureFormat) -> Option<Seq<u8>>;

/// Trusted: `image::load_from_memory`, which guesses the format from the
/// bytes and decodes them; `decoded` names the outcome, a function of the bytes.
#[verifier::external_body]
fn decode_image(data: &[u8]) -> (r: Result<DynamicImage, ImageError>)
    ensures
        match r {
            Ok(img) => decoded(data@) == Some(img),
            Err(_) => decoded(data@) is None,
        },
{
    image::load_from_memory(data)
}

/// Trusted: `DynamicImage::resize_exact` with the filter that `filter` names;
/// `resized` names the result, a function of the picture, the sides and the filter.
#[verifier::external_body]
fn resize_exact(img: &DynamicImage, width: u32, height: u32, filter: ResizeFilter) -> (r: DynamicImage)
    requires
        width > 0,
        height > 0,
    ensures
        r == resized(*img, width, height, filter),
{
    let f = match filter {
        ResizeFilter::Nearest => image::imageops::FilterType::Nearest,
        ResizeFilter::Triangle => image::imageops::FilterType::Triangle,
        ResizeFilter::CatmullRom => image::imageops::FilterType::CatmullRom,
        ResizeFilter::Gaussian => image::imageops::FilterType::Gaussian,
        ResizeFilter::Lanczos3 => image::imageops::FilterType::Lanczos3,
    };
    img.resize_exact(width, height, f)
}

/// Trusted: `DynamicImage::write_to` into an in-memory `Cursor`, in the
/// encoding that `format` names; gives the encoded bytes. `encoded` names the
/// outcome, a function of the picture and the format.
#[verifier::external_body]
fn encode(img: &DynamicImage, format: PictureFormat) -> (r: Result<Vec<u8>, ImageError>)
    ensures
        match r {
            Ok(bytes) => encoded(*img, format) == Some(bytes@),
            Err(_) => encoded(*img, format) is None,
        },
{
    let f = match format {
        PictureFormat::Png => image::ImageFormat::Png,
        PictureFormat::Jpeg => image::ImageFormat::Jpeg,
    };
    let mut buf = Cursor::new(Vec::new());
    img.write_to(&mut buf, f).map(|()| buf.into_inner())
}

/// The standard icon set: entry name in the archive and side in pixels.
pub open spec fn icon_table() -> Seq<(Seq<char>, u32)> {
    seq![
        ("ios/Icon-20.png"@, 20u32),
        ("ios/Icon-20@2x.png"@, 40u32),
        ("ios/Icon-20@3x.png"@, 60u32),
        ("ios/Icon-29.png"@, 29u32),
        ("ios/Icon-29@2x.png"@, 58u32),
        ("ios/Icon-29@3x.png"@, 87u32),
        ("ios/Icon-40.png"@, 40u32),
        ("ios/Icon-40@2x.png"@, 80u32),
        ("ios/Icon-40@3x.png"@, 120u32),
        ("ios/Icon-60@2x.png"@, 120u32),
        ("ios/Icon-60@3x.png"@, 180u32),
        ("ios/Icon-76.png"@, 76u32),
        ("ios/Icon-76@2x.png"@, 152u32),
        ("ios/Icon-83.5@2x.png"@, 167u32),
        ("ios/Icon-1024.png"@, 1024u32),
        ("android/mipmap-mdpi/ic_launcher.png"@, 48u32),
        ("android/mipmap-hdpi/ic_launcher.png"@, 72u32),
        ("android/mipmap-xhdpi/ic_launcher.png"@, 96u32),
        ("android/mipmap-xxhdpi/ic_launcher.png"@, 144u32),
        ("android/mipmap-xxxhdpi/ic_launcher.png"@, 192u32),
        ("android/playstore-512.png"@, 512u32),
    ]
}

/// The icon set follows the platform conventions: an iOS icon
/// `ios/Icon-<base>@<k>x.png` (no `@<k>x` meaning `k` = 1) is `base * k`
/// pixels wide, and an Android launcher icon is the baseline 48 pixels (mdpi)
/// times its density's factor: 3/2 for hdpi, 2 for xhdpi, 3 for xxhdpi,
/// 4 for xxxhdpi; the Play Store icon is 512 pixels wide.
pub proof fn lemma_icon_sides_follow_the_platforms()
    ensures
        icon_table().len() == 21,
        icon_table()[0].0 == "ios/Icon-20.png"@,
        icon_table()[0].1 == 20 * 1,
        icon_table()[1].0 == "ios/Icon-20@2x.png"@,
        icon_table()[1].1 == 20 * 2,
        icon_table()[2].0 == "ios/Icon-20@3x.png"@,
        icon_table()[2].1 == 20 * 3,
        icon_table()[3].0 == "ios/Icon-29.png"@,
        icon_table()[3].1 == 29 * 1,
        icon_table()[4].0 == "ios/Icon-29@2x.png"@,
        icon_table()[4].1 == 29 * 2,
        icon_table()[5].0 == "ios/Icon-29@3x.png"@,
        icon_table()[5].1 == 29 * 3,
        icon_table()[6].0 == "ios/Icon-40.png"@,
        icon_table()[6].1 == 40 * 1,
        icon_table()[7].0 == "ios/Icon-40@2x.png"@,
        icon_table()[7].1 == 40 * 2,
        icon_table()[8].0 == "ios/Icon-40@3x.png"@,
        icon_table()[8].1 == 40 * 3,
        icon_table()[9].0 == "ios/Icon-60@2x.png"@,
        icon_table()[9].1 == 60 * 2,
        icon_table()[10].0 == "ios/Icon-60@3x.png"@,
        icon_table()[10].1 == 60 * 3,
        icon_table()[11].0 == "ios/Icon-76.png"@,
        icon_table()[11].1 == 76 * 1,
        icon_table()[12].0 == "ios/Icon-76@2x.png"@,
        icon_table()[12].1 == 76 * 2,
        icon_table()[13].0 == "ios/Icon-83.5@2x.png"@,
        icon_table()[13].1 == 835 * 2 / 10,
        icon_table()[14].0 == "ios/Icon-1024.png"@,
        icon_table()[14].1 == 1024 * 1,
        icon_table()[15].0 == "android/mipmap-mdpi/ic_launcher.png"@,
        icon_table()[15].1 == 48 * 1,
        icon_table()[16].0 == "android/mipmap-hdpi/ic_launcher.png"@,
        icon_table()[16].1 == 48 * 3 / 2,
        icon_table()[17].0 == "android/mipmap-xhdpi/ic_launcher.png"@,
        icon_table()[17].1 == 48 * 2,
        icon_table()[18].0 == "android/mipmap-xxhdpi/ic_launcher.png"@,
        icon_table()[18].1 == 48 * 3,
        icon_table()[19].0 == "android/mipmap-xxxhdpi/ic_launcher.png"@,
        icon_table()[19].1 == 48 * 4,
        icon_table()[20].0 == "android/playstore-512.png"@,
        icon_table()[20].1 == 512,
{
}

/// Every icon of the set has a positive side.
proof fn lemma_icon_sides_positive(k: int)
    requires
        0 <= k < icon_table().len(),
    ensures
        icon_table()[k].1 > 0,
{
    if k == 0 {
    } else if k == 1 {
    } else if k == 2 {
    } else if k == 3 {
    } else if k == 4 {
    } else if k == 5 {
    } else if k == 6 {
    } else if k == 7 {
    } else if k == 8 {
    } else if k == 9 {
    } else if k == 10 {
    } else if k == 11 {
    } else if k == 12 {
    } else if k == 13 {
    } else if k == 14 {
    } else if k == 15 {
    } else if k == 16 {
    } else if k == 17 {
    } else if k == 18 {
    } else if k == 19 {
    } else {
        assert(k == 20);
    }
}

/// The texts and sides of a list of icons.
pub open spec fn icon_texts(v: Seq<(&str, u32)>) -> Seq<(Seq<char>, u32)> {
    v.map_values(|p: (&str, u32)| (p.0@, p.1))
}

/// The iOS (`AppIcon.appiconset`) and Android (mipmap, Play Store) icons.
pub fn app_icon_set() -> (r: Vec<(&'static str, u32)>)
    ensures
        icon_texts(r@) == icon_table(),
{
    let v = vec![
        ("ios/Icon-20.png", 20u32),
        ("ios/Icon-20@2x.png", 40u32),
        ("ios/Icon-20@3x.png", 60u32),
        ("ios/Icon-29.png", 29u32),
        ("ios/Icon-29@2x.png", 58u32),
        ("ios/Icon-29@3x.png", 87u32),
        ("ios/Icon-40.png", 40u32),
        ("ios/Icon-40@2x.png", 80u32),
        ("ios/Icon-40@3x.png", 120u32),
        ("ios/Icon-60@2x.png", 120u32),
        ("ios/Icon-60@3x.png", 180u32),
        ("ios/Icon-76.png", 76u32),
        ("ios/Icon-76@2x.png", 152u32),
        ("ios/Icon-83.5@2x.png", 167u32),
        ("ios/Icon-1024.png", 1024u32),
        ("android/mipmap-mdpi/ic_launcher.png", 48u32),
        ("android/mipmap-hdpi/ic_launcher.png", 72u32),
        ("android/mipmap-xhdpi/ic_launcher.png", 96u32),
        ("android/mipmap-xxhdpi/ic_launcher.png", 144u32),
        ("android/mipmap-xxxhdpi/ic_launcher.png", 192u32),
        ("android/playstore-512.png", 512u32),
    ];
    assert(icon_texts(v@) =~= icon_table());
    v
}

/// Whether `e` answers a failure to encode an icon or to archive it.
pub open spec fn icon_failure(e: AppError) -> bool {
    archive_failure(e) || exists|d: String| answers(e, Failure::EncodePng(d))
}

/// The entry names of the icon archive, in order.
pub open spec fn icon_names() -> Seq<Seq<char>> {
    icon_table().map_values(|p: (Seq<char>, u32)| p.0)
}

/// The icon of side `side` made of `img`: resized to `side` x `side` with
/// Lanczos3 and encoded as PNG.
pub open spec fn icon_png(img: DynamicImage, side: u32) -> Option<Seq<u8>> {
    encoded(resized(img, side, side, ResizeFilter::Lanczos3), PictureFormat::Png)
}

/// Whether every icon of `img` can be encoded.
pub open spec fn icons_encodable(img: DynamicImage) -> bool {
    forall|i: int| 0 <= i < icon_table().len() ==> (#[trigger] icon_png(img, icon_table()[i].1)) is Some
}

/// The entries of the icon archive of `img`: for each icon of the table, in
/// order, its name and its PNG.
pub open spec fn icon_archive_entries(img: DynamicImage) -> Seq<(Seq<char>, Seq<u8>)> {
    Seq::new(
        icon_table().len(),
        |i: int| (icon_table()[i].0, icon_png(img, icon_table()[i].1).unwrap()),
    )
}

/// Each icon of the archive is the picture scaled to a square of the icon's
/// side with the Lanczos3 filter, then written as PNG.
pub proof fn lemma_icons_are_lanczos_pngs(img: DynamicImage, i: int)
    requires
        icons_encodable(img),
        0 <= i < icon_table().len(),
    ensures
        icon_archive_entries(img).len() == icon_table().len(),
        icon_archive_entries(img)[i].0 == icon_table()[i].0,
        Some(icon_archive_entries(img)[i].1) == encoded(
            resized(img, icon_table()[i].1, icon_table()[i].1, ResizeFilter::Lanczos3),
            PictureFormat::Png,
        ),
{
    assert(icon_png(img, icon_table()[i].1) is Some);
}

/// A key that tells the icon names apart: length and a few characters.
spec fn icon_key(s: Seq<char>) -> (nat, char, char, char, char) {
    (s.len(), s[9], s[10], s[12], s[15])
}

/// The icon names are pairwise different and short.
proof fn lemma_icon_names_distinct()
    ensures
        forall|i: int, j: int|
            0 <= i < j < icon_table().len() ==> (#[trigger] icon_table()[i]).0 != (
            #[trigger] icon_table()[j]).0,
        forall|i: int| 0 <= i < icon_table().len() ==> (#[trigger] icon_table()[i]).0.len() <= 40,
{
    reveal_strlit("ios/Icon-20.png");
    reveal_strlit("ios/Icon-20@2x.png");
    reveal_strlit("ios/Icon-20@3x.png");
    reveal_strlit("ios/Icon-29.png");
    reveal_strlit("ios/Icon-29@2x.png");
    reveal_strlit("ios/Icon-29@3x.png");
    reveal_strlit("ios/Icon-40.png");
    reveal_strlit("ios/Icon-40@2x.png");
    reveal_strlit("ios/Icon-40@3x.png");
    reveal_strlit("ios/Icon-60@2x.png");
    reveal_strlit("ios/Icon-60@3x.png");
    reveal_strlit("ios/Icon-76.png");
    reveal_strlit("ios/Icon-76@2x.png");
    reveal_strlit("ios/Icon-83.5@2x.png");
    reveal_strlit("ios/Icon-1024.png");
    reveal_strlit("android/mipmap-mdpi/ic_launcher.png");
    reveal_strlit("android/mipmap-hdpi/ic_launcher.png");
    reveal_strlit("android/mipmap-xhdpi/ic_launcher.png");
    reveal_strlit("android/mipmap-xxhdpi/ic_launcher.png");
    reveal_strlit("android/mipmap-xxxhdpi/ic_launcher.png");
    reveal_strlit("android/playstore-512.png");
    let t = icon_table();
    let keys = Seq::new(21, |i: int| icon_key(t[i].0));
    assert(keys =~= seq![
        (15nat, '2', '0', 'p', t[0].0[15]),
        (18nat, '2', '0', '2', 'p'),
        (18nat, '2', '0', '3', 'p'),
        (15nat, '2', '9', 'p', t[3].0[15]),
        (18nat, '2', '9', '2', 'p'),
        (18nat, '2', '9', '3', 'p'),
        (15nat, '4', '0', 'p', t[6].0[15]),
        (18nat, '4', '0', '2', 'p'),
        (18nat, '4', '0', '3', 'p'),
        (18nat, '6', '0', '2', 'p'),
        (18nat, '6', '0', '3', 'p'),
        (15nat, '7', '6', 'p', t[11].0[15]),
        (18nat, '7', '6', '2', 'p'),
        (20nat, '8', '3', '5', 'x'),
        (17nat, '1', '0', '4', 'n'),
        (35nat, 'i', 'p', 'a', 'm'),
        (35nat, 'i', 'p', 'a', 'h'),
        (36nat, 'i', 'p', 'a', 'x'),
        (37nat, 'i', 'p', 'a', 'x'),
        (38nat, 'i', 'p', 'a', 'x'),
        (25nat, 'l', 'a', 's', 'r'),
    ]);
    assert forall|i: int, j: int|
        0 <= i < j < icon_table().len() implies (#[trigger] icon_table()[i]).0 != (
        #[trigger] icon_table()[j]).0 by {
        assert(keys[i] == icon_key(t[i].0));
        assert(keys[j] == icon_key(t[j].0));
    }
}

/// Resizes `img` to every icon of the set (Lanczos3), encodes each as PNG and
/// adds it to a new deflated archive: on success the archive holds, in the
/// table's order, each icon's name and PNG. It succeeds when every icon can
/// be encoded and the icons stay within the plain archive limits.
pub fn icon_entries(img: &DynamicImage) -> (r: Result<ArchiveBuilder, AppError>)
    ensures
        r matches Ok(b) ==> icons_encodable(*img) && archive_entries(b) == icon_archive_entries(*img)
            && archive_method(b) == Compression::Deflated,
        icons_encodable(*img) && within_plain_limits(icon_archive_entries(*img)) ==> r is Ok,
        r matches Err(e) ==> icon_failure(e) && e.status == INTERNAL_SERVER_ERROR,
{
    let icons = app_icon_set();
    let mut zip = ArchiveBuilder::new(Compression::Deflated);
    let ghost full = icon_archive_entries(*img);
    let mut i: usize = 0;
    proof {
        lemma_icon_names_distinct();
    }
    assert(archive_entries(zip) =~= full.subrange(0, 0));
    while i < icons.len()
        invariant
            icon_texts(icons@) == icon_table(),
            i <= icons.len(),
            full == icon_archive_entries(*img),
            archive_entries(zip) == full.subrange(0, i as int),
            archive_method(zip) == Compression::Deflated,
            forall|k: int| 0 <= k < i ==> (#[trigger] icon_png(*img, icon_table()[k].1)) is Some,
            forall|a: int, b: int|
                0 <= a < b < icon_table().len() ==> (#[trigger] icon_table()[a]).0 != (
                #[trigger] icon_table()[b]).0,
            forall|k: int| 0 <= k < icon_table().len() ==> (#[trigger] icon_table()[k]).0.len() <= 40,
        decreases icons.len() - i,
    {
        let (name, size) = icons[i];
        assert(icon_texts(icons@)[i as int] == icon_table()[i as int]);
        proof {
            lemma_icon_sides_positive(i as int);
        }
        let resized_icon = resize_exact(img, size, size, ResizeFilter::Lanczos3);
        let png = match encode(&resized_icon, PictureFormat::Png) {
            Ok(bytes) => bytes,
            Err(e) => {
                let d = e.to_string();
                let err = Failure::EncodePng(d).into_app_error();
                assert(answers(err, Failure::EncodePng(d)));
                assert(!icons_encodable(*img) || !(icon_png(*img, icon_table()[i as int].1) is Some));
                return Err(err);
            },
        };
        let ghost before = archive_entries(zip);
        proof {
            assert(full[i as int] == (name@, png@));
            assert(full.subrange(0, i + 1) =~= before.push((name@, png@)));
            if icons_encodable(*img) && within_plain_limits(full) {
                lemma_limits_of_prefix(full, i + 1);
            }
            if entry_names(zip).contains(name@) {
                let k = choose|k: int| 0 <= k < entry_names(zip).len() && entry_names(zip)[k] == name@;
                assert(entry_names(zip)[k] == full[k].0);
                assert(full[k].0 == icon_table()[k].0);
                assert(false);
            }
        }
        match zip.add_entry(name, png.as_slice()) {
            Ok(()) => {},
            Err(e) => {
                return Err(e);
            },
        }
        i = i + 1;
    }
    assert(full.subrange(0, i as int) =~= full);
    Ok(zip)
}

/// The icon archive's bytes (see `icon_entries`): reading them back gives,
/// in the table's order, each icon's name and PNG, deflated.
pub fn icon_archive(img: &DynamicImage) -> (r: Result<Vec<u8>, AppError>)
    ensures
        r matches Ok(bytes) ==> icons_encodable(*img) && zip_read_entries(bytes@) == stored_with(
            icon_archive_entries(*img),
            Compression::Deflated,
        ),
        icons_encodable(*img) && within_plain_limits(icon_archive_entries(*img)) ==> r is Ok,
        r matches Err(e) ==> icon_failure(e) && e.status == INTERNAL_SERVER_ERROR,
{
    let zip = icon_entries(img)?;
    zip.finish()
}

/// Whether `e` refuses a picture that cannot be decoded, with the decoder's message.
pub open spec fn unreadable_image(e: AppError) -> bool {
    exists|d: String| answers(e, Failure::UnreadableImage(d))
}

/// The app-icon archive for an uploaded picture. A picture that cannot be
/// decoded is refused (400) with the decoder's message. Otherwise the archive
/// holds, deflated and in the table's order, every icon's name and the PNG of
/// the picture resized to that icon's side with Lanczos3; it is made whenever
/// every icon can be encoded and the icons stay within the plain archive limits.
pub fn build_app_icons(data: &[u8]) -> (r: Result<Vec<u8>, AppError>)
    ensures
        decoded(data@) is None ==> (r matches Err(e) && unreadable_image(e)),
        decoded(data@) is Some ==> {
            let img = decoded(data@)->0;
            &&& r matches Ok(bytes) ==> icons_encodable(img) && zip_read_entries(bytes@)
                == stored_with(icon_archive_entries(img), Compression::Deflated)
            &&& icons_encodable(img) && within_plain_limits(icon_archive_entries(img)) ==> r is Ok
            &&& r matches Err(e) ==> icon_failure(e) && e.status == INTERNAL_SERVER_ERROR
        },
{
    let img = match decode_image(data) {
        Ok(img) => img,
        Err(e) => {
            let d = e.to_string();
            let err = Failure::UnreadableImage(d).into_app_error();
            assert(answers(err, Failure::UnreadableImage(d)));
            return Err(err);
        },
    };
    icon_archive(&img)
}

} // verus!
