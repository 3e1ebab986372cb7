use rustconvert::kinds::Kind;
use rustconvert::request::{admit_request, field_role, Field, FieldRole, Upload};

fn upload(from: Option<&str>, to: Option<&str>, data: Option<&[u8]>) -> Upload {
    let mut u = Upload::new();
    if let Some(f) = from {
        u.set_from(f.to_string());
    }
    if let Some(t) = to {
        u.set_to(t.to_string());
    }
    if let Some(d) = data {
        u.set_file(d.to_vec());
    }
    u
}

#[test]
fn field_roles_by_name() {
    assert_eq!(field_role("from"), FieldRole::From);
    assert_eq!(field_role("to"), FieldRole::To);
    assert_eq!(field_role("file"), FieldRole::File);
    assert_eq!(field_role("File"), FieldRole::Ignored);
    assert_eq!(field_role("comment"), FieldRole::Ignored);
    assert_eq!(field_role(""), FieldRole::Ignored);
}

#[test]
fn a_later_field_replaces_an_earlier_one() {
    let mut u = Upload::new();
    u.set_from("docx".to_string());
    u.set_from("wav".to_string());
    u.set_to("mp3".to_string());
    u.set_file(vec![1]);
    u.set_file(vec![7, 8]);
    assert_eq!(u.from.as_deref(), Some("wav"));
    assert_eq!(u.data, Some(vec![7, 8]));
    let job = u.into_job().ok().unwrap();
    assert_eq!(job.kind, Kind::AudioToMp3);
    assert_eq!(job.data, vec![7, 8]);
}

#[test]
fn missing_from_is_refused_first() {
    let e = upload(None, None, None).into_job().err().unwrap();
    assert_eq!(e.status, 400);
    assert_eq!(e.message, "Thiếu tham số 'from'");
}

#[test]
fn missing_to_is_refused() {
    let e = upload(Some("wav"), None, Some(b"x")).into_job().err().unwrap();
    assert_eq!(e.status, 400);
    assert_eq!(e.message, "Thiếu tham số 'to'");
}

#[test]
fn missing_file_is_refused() {
    let e = upload(Some("wav"), Some("mp3"), None).into_job().err().unwrap();
    assert_eq!(e.status, 400);
    assert_eq!(e.message, "Thiếu file upload");
}

#[test]
fn empty_file_is_refused() {
    let e = upload(Some("wav"), Some("mp3"), Some(b"")).into_job().err().unwrap();
    assert_eq!(e.status, 400);
    assert_eq!(e.message, "File rỗng");
}

#[test]
fn unsupported_pair_is_refused_with_its_lower_case_names() {
    let e = upload(Some("GIF"), Some("PNG"), Some(b"x")).into_job().err().unwrap();
    assert_eq!(e.status, 400);
    assert_eq!(e.message, "Không hỗ trợ chuyển 'gif' sang 'png'");
}

#[test]
fn formats_are_compared_in_lower_case() {
    let job = upload(Some("WAV"), Some("Mp3"), Some(b"RIFF")).into_job().ok().unwrap();
    assert_eq!(job.from, "wav");
    assert_eq!(job.to, "mp3");
    assert_eq!(job.kind, Kind::AudioToMp3);
    assert_eq!(job.data, b"RIFF".to_vec());

    let job = upload(Some("PDF"), Some("JPEG"), Some(b"%PDF")).into_job().ok().unwrap();
    assert_eq!(job.kind, Kind::PdfToImage);
    assert_eq!(job.to, "jpeg");
}

#[test]
fn admit_request_checks_the_file_before_the_pair() {
    let e = admit_request("gif".to_string(), "mp3".to_string(), Some(vec![])).err().unwrap();
    assert_eq!(e.message, "File rỗng");
    let e = admit_request("gif".to_string(), "mp3".to_string(), None).err().unwrap();
    assert_eq!(e.message, "Thiếu file upload");
    let job = admit_request("png".to_string(), "app-icon".to_string(), Some(vec![1])).ok().unwrap();
    assert_eq!(job.kind, Kind::ImageToIcon);
}

#[test]
fn gathering_fields_keeps_the_last_of_each_and_skips_others() {
    let u = Upload::gather(vec![
        Field::Ignored,
        Field::From("docx".to_string()),
        Field::File(vec![1]),
        Field::Ignored,
        Field::To("mp3".to_string()),
        Field::From("wav".to_string()),
        Field::File(vec![2, 3]),
        Field::Ignored,
    ]);
    assert_eq!(u.from.as_deref(), Some("wav"));
    assert_eq!(u.to.as_deref(), Some("mp3"));
    assert_eq!(u.data, Some(vec![2, 3]));
    let e = Upload::gather(vec![Field::Ignored]).into_job().err().unwrap();
    assert_eq!(e.message, "Thiếu tham số 'from'");
}
