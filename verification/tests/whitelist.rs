use rustconvert::kinds::{classify, Kind};

#[test]
fn audio_and_video_sources_convert_to_mp3() {
    for from in ["wav", "flac", "m4a", "mp4", "mov", "mkv"] {
        assert_eq!(classify(from, "mp3"), Some(Kind::AudioToMp3));
    }
}

#[test]
fn office_documents_convert_to_pdf() {
    for from in ["docx", "xlsx", "pptx"] {
        assert_eq!(classify(from, "pdf"), Some(Kind::DocToPdf));
    }
}

#[test]
fn pdf_converts_to_images() {
    for to in ["jpg", "jpeg", "png"] {
        assert_eq!(classify("pdf", to), Some(Kind::PdfToImage));
    }
}

#[test]
fn pictures_convert_to_app_icons() {
    for from in ["png", "jpg", "jpeg"] {
        assert_eq!(classify(from, "app-icon"), Some(Kind::ImageToIcon));
    }
}

#[test]
fn pairs_off_the_whitelist_are_refused() {
    assert_eq!(classify("mp3", "wav"), None);
    assert_eq!(classify("wav", "pdf"), None);
    assert_eq!(classify("pdf", "gif"), None);
    assert_eq!(classify("gif", "app-icon"), None);
    assert_eq!(classify("doc", "pdf"), None);
    assert_eq!(classify("", ""), None);
    assert_eq!(classify("wav;rm -rf /", "mp3"), None);
    // The whitelist itself compares exact lower-case names.
    assert_eq!(classify("WAV", "mp3"), None);
    assert_eq!(classify("wav ", "mp3"), None);
}
