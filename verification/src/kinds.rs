//! The whitelist of supported conversion pairs.

use vstd::prelude::*;
use crate::text::text_eq;

verus! {

/// The four groups of conversions that the backend supports.
#[derive(Clone, Copy, Debug, PartialEq, Eq, Structural)]
pub enum Kind {
    /// Audio or video to MP3 (FFmpeg).
    AudioToMp3,
    /// Office document to PDF (LibreOffice).
    DocToPdf,
    /// PDF pages to JPG/PNG images in a zip (pdftoppm).
    PdfToImage,
    /// PNG/JPG to a zip of iOS and Android app icons.
    ImageToIcon,
}

pub open spec fn is_audio_source(s: Seq<char>) -> bool {
    ||| s == "wav"@
    ||| s == "flac"@
    ||| s == "m4a"@
    ||| s == "mp4"@
    ||| s == "mov"@
    ||| s == "mkv"@
}

pub open spec fn is_document_source(s: Seq<char>) -> bool {
    s == "docx"@ || s == "xlsx"@ || s == "pptx"@
}

pub open spec fn is_raster_name(s: Seq<char>) -> bool {
    s == "png"@ || s == "jpg"@ || s == "jpeg"@
}

/// Which conversion, if any, the pair (`from`, `to`) names.
pub open spec fn classify_spec(from: Seq<char>, to: Seq<char>) -> Option<Kind> {
    if is_audio_source(from) && to == "mp3"@ {
        Some(Kind::AudioToMp3)
    } else if is_document_source(from) && to == "pdf"@ {
        Some(Kind::DocToPdf)
    } else if from == "pdf"@ && (to == "jpg"@ || to == "jpeg"@ || to == "png"@) {
        Some(Kind::PdfToImage)
    } else if (from == "png"@ || from == "jpg"@ || from == "jpeg"@) && to == "app-icon"@ {
        Some(Kind::ImageToIcon)
    } else {
        None
    }
}

/// The supported conversions, pair by pair, with the group each belongs to.
pub open spec fn supported_pairs() -> Seq<(Seq<char>, Seq<char>, Kind)> {
    seq![
        ("wav"@, "mp3"@, Kind::AudioToMp3),
        ("flac"@, "mp3"@, Kind::AudioToMp3),
        ("m4a"@, "mp3"@, Kind::AudioToMp3),
        ("mp4"@, "mp3"@, Kind::AudioToMp3),
        ("mov"@, "mp3"@, Kind::AudioToMp3),
        ("mkv"@, "mp3"@, Kind::AudioToMp3),
        ("docx"@, "pdf"@, Kind::DocToPdf),
        ("xlsx"@, "pdf"@, Kind::DocToPdf),
        ("pptx"@, "pdf"@, Kind::DocToPdf),
        ("pdf"@, "jpg"@, Kind::PdfToImage),
        ("pdf"@, "jpeg"@, Kind::PdfToImage),
        ("pdf"@, "png"@, Kind::PdfToImage),
        ("png"@, "app-icon"@, Kind::ImageToIcon),
        ("jpg"@, "app-icon"@, Kind::ImageToIcon),
        ("jpeg"@, "app-icon"@, Kind::ImageToIcon),
    ]
}

/// The whitelist accepts exactly the supported pairs, each in its own group:
/// audio and video to MP3, office documents to PDF, PDF to JPG or PNG
/// pages, PNG or JPG to app icons; every other pair is refused.
pub proof fn lemma_whitelist_is_the_supported_pairs(from: Seq<char>, to: Seq<char>, kind: Kind)
    ensures
        classify_spec(from, to) == Some(kind) <==> supported_pairs().contains((from, to, kind)),
{
    reveal_strlit("wav");
    reveal_strlit("flac");
    reveal_strlit("m4a");
    reveal_strlit("mp4");
    reveal_strlit("mov");
    reveal_strlit("mkv");
    reveal_strlit("docx");
    reveal_strlit("xlsx");
    reveal_strlit("pptx");
    reveal_strlit("pdf");
    reveal_strlit("png");
    reveal_strlit("jpg");
    reveal_strlit("jpeg");
    reveal_strlit("mp3");
    reveal_strlit("app-icon");
    assert("wav"@.len() == 3 && "wav"@[0] == 'w' && "wav"@[1] == 'a');
    assert("flac"@.len() == 4 && "flac"@[0] == 'f' && "flac"@[1] == 'l');
    assert("m4a"@.len() == 3 && "m4a"@[0] == 'm' && "m4a"@[1] == '4');
    assert("mp4"@.len() == 3 && "mp4"@[0] == 'm' && "mp4"@[1] == 'p');
    assert("mov"@.len() == 3 && "mov"@[0] == 'm' && "mov"@[1] == 'o');
    assert("mkv"@.len() == 3 && "mkv"@[0] == 'm' && "mkv"@[1] == 'k');
    assert("docx"@.len() == 4 && "docx"@[0] == 'd' && "docx"@[1] == 'o');
    assert("xlsx"@.len() == 4 && "xlsx"@[0] == 'x' && "xlsx"@[1] == 'l');
    assert("pptx"@.len() == 4 && "pptx"@[0] == 'p' && "pptx"@[1] == 'p');
    assert("pdf"@.len() == 3 && "pdf"@[0] == 'p' && "pdf"@[1] == 'd');
    assert("png"@.len() == 3 && "png"@[0] == 'p' && "png"@[1] == 'n');
    assert("jpg"@.len() == 3 && "jpg"@[0] == 'j' && "jpg"@[1] == 'p');
    assert("jpeg"@.len() == 4 && "jpeg"@[0] == 'j' && "jpeg"@[1] == 'p');
    assert("mp3"@.len() == 3 && "mp3"@[0] == 'm' && "mp3"@[1] == 'p');
    assert("app-icon"@.len() == 8 && "app-icon"@[0] == 'a' && "app-icon"@[1] == 'p');
    let t = supported_pairs();
    if classify_spec(from, to) == Some(kind) {
        if from == "wav"@ {
            assert(t[0] == (from, to, kind));
        } else if from == "flac"@ {
            assert(t[1] == (from, to, kind));
        } else if from == "m4a"@ {
            assert(t[2] == (from, to, kind));
        } else if from == "mp4"@ {
            assert(t[3] == (from, to, kind));
        } else if from == "mov"@ {
            assert(t[4] == (from, to, kind));
        } else if from == "mkv"@ {
            assert(t[5] == (from, to, kind));
        } else if from == "docx"@ {
            assert(t[6] == (from, to, kind));
        } else if from == "xlsx"@ {
            assert(t[7] == (from, to, kind));
        } else if from == "pptx"@ {
            assert(t[8] == (from, to, kind));
        } else if from == "pdf"@ && to == "jpg"@ {
            assert(t[9] == (from, to, kind));
        } else if from == "pdf"@ && to == "jpeg"@ {
            assert(t[10] == (from, to, kind));
        } else if from == "pdf"@ {
            assert(t[11] == (from, to, kind));
        } else if from == "png"@ {
            assert(t[12] == (from, to, kind));
        } else if from == "jpg"@ {
            assert(t[13] == (from, to, kind));
        } else {
            assert(t[14] == (from, to, kind));
        }
    }
    if t.contains((from, to, kind)) {
        let i = choose|i: int| 0 <= i < t.len() && t[i] == (from, to, kind);
        assert(0 <= i < 15);
        if i == 0 {
        } else if i == 1 {
        } else if i == 2 {
        } else if i == 3 {
        } else if i == 4 {
        } else if i == 5 {
        } else if i == 6 {
        } else if i == 7 {
        } else if i == 8 {
        } else if i == 9 {
        } else if i == 10 {
        } else if i == 11 {
        } else if i == 12 {
        } else if i == 13 {
        } else {
        }
    }
}

/// The whitelist: decides whether the pair (`from`, `to`) is accepted.
/// Every value outside it is refused.
pub fn classify(from: &str, to: &str) -> (r: Option<Kind>)
    ensures
        r == classify_spec(from@, to@),
{
    let audio = text_eq(from, "wav") || text_eq(from, "flac") || text_eq(from, "m4a")
        || text_eq(from, "mp4") || text_eq(from, "mov") || text_eq(from, "mkv");
    if audio && text_eq(to, "mp3") {
        return Some(Kind::AudioToMp3);
    }
    let doc = text_eq(from, "docx") || text_eq(from, "xlsx") || text_eq(from, "pptx");
    if doc && text_eq(to, "pdf") {
        return Some(Kind::DocToPdf);
    }
    if text_eq(from, "pdf") && (text_eq(to, "jpg") || text_eq(to, "jpeg") || text_eq(to, "png")) {
        return Some(Kind::PdfToImage);
    }
    if (text_eq(from, "png") || text_eq(from, "jpg") || text_eq(from, "jpeg")) && text_eq(
        to,
        "app-icon",
    ) {
        return Some(Kind::ImageToIcon);
    }
    None
}

} // verus!
