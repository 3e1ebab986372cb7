use rustconvert::kinds::Kind;
use rustconvert::plan::{
    audio_command, command_outcome, content_disposition, document_command, file_name,
    image_flag, job_command, join_path, libreoffice_profile_arg, output_for, pages_command, plan_job, plan_with_id, Step,
};
use rustconvert::request::Upload;

fn job(from: &str, to: &str) -> rustconvert::request::Job {
    let mut u = Upload::new();
    u.set_from(from.to_string());
    u.set_to(to.to_string());
    u.set_file(vec![1, 2, 3]);
    u.into_job().ok().unwrap()
}

fn is_hyphenated_v4(id: &str) -> bool {
    let c: Vec<char> = id.chars().collect();
    c.len() == 36
        && c.iter().enumerate().all(|(i, ch)| {
            if [8, 13, 18, 23].contains(&i) {
                *ch == '-'
            } else {
                ch.is_ascii_digit() || ('a'..='f').contains(ch)
            }
        })
        && c[14] == '4'
        && ['8', '9', 'a', 'b'].contains(&c[19])
}

#[test]
fn audio_plan_uses_a_random_name() {
    let p = plan_job(&job("wav", "mp3")).ok().unwrap();
    assert!(is_hyphenated_v4(&p.id));
    assert_eq!(p.input_name, format!("{}.wav", p.id));
    match p.step {
        Step::Audio { output_name } => assert_eq!(output_name, format!("{}.mp3", p.id)),
        other => panic!("unexpected step {:?}", other),
    }
}

#[test]
fn two_plans_get_different_ids() {
    let a = plan_job(&job("wav", "mp3")).ok().unwrap();
    let b = plan_job(&job("wav", "mp3")).ok().unwrap();
    assert_ne!(a.id, b.id);
}

#[test]
fn document_plan() {
    let p = plan_job(&job("DOCX", "pdf")).ok().unwrap();
    assert_eq!(p.input_name, format!("{}.docx", p.id));
    match p.step {
        Step::Document { profile_dir, output_name } => {
            assert_eq!(profile_dir, "loprofile");
            assert_eq!(output_name, format!("{}.pdf", p.id));
        }
        other => panic!("unexpected step {:?}", other),
    }
}

#[test]
fn pdf_pages_plan() {
    let p = plan_job(&job("pdf", "jpeg")).ok().unwrap();
    match &p.step {
        Step::PdfPages { flag, ext, prefix } => {
            assert_eq!(flag, "-jpeg");
            assert_eq!(ext, "jpg");
            assert_eq!(prefix, &p.id);
        }
        other => panic!("unexpected step {:?}", other),
    }
    let p = plan_job(&job("pdf", "png")).ok().unwrap();
    match &p.step {
        Step::PdfPages { flag, ext, .. } => assert_eq!((flag.as_str(), ext.as_str()), ("-png", "png")),
        other => panic!("unexpected step {:?}", other),
    }
}

#[test]
fn icon_plan() {
    let p = plan_job(&job("jpg", "app-icon")).ok().unwrap();
    assert!(matches!(p.step, Step::Icons));
    assert_eq!(p.input_name, format!("{}.jpg", p.id));
}

#[test]
fn plan_with_a_given_id() {
    let id = "67e55044-10b1-426f-9247-bb680e5fe0c8".to_string();
    let p = plan_with_id(Kind::AudioToMp3, "flac", "mp3", id.clone()).ok().unwrap();
    assert_eq!(p.input_name, "67e55044-10b1-426f-9247-bb680e5fe0c8.flac");
    let e = plan_with_id(Kind::PdfToImage, "pdf", "gif", id).err().unwrap();
    assert_eq!((e.status, e.message.as_str()), (400, "Định dạng ảnh không hợp lệ"));
}

#[test]
fn image_flags() {
    let (f, e) = image_flag("jpg").ok().unwrap();
    assert_eq!((f.as_str(), e.as_str()), ("-jpeg", "jpg"));
    let (f, e) = image_flag("jpeg").ok().unwrap();
    assert_eq!((f.as_str(), e.as_str()), ("-jpeg", "jpg"));
    let (f, e) = image_flag("png").ok().unwrap();
    assert_eq!((f.as_str(), e.as_str()), ("-png", "png"));
    let err = image_flag("tiff").err().unwrap();
    assert_eq!(err.status, 400);
    assert_eq!(err.message, "Định dạng ảnh không hợp lệ");
}

#[test]
fn file_names() {
    assert_eq!(file_name("abc", "mp3"), "abc.mp3");
    assert_eq!(file_name("abc", ""), "abc.");
}

#[test]
fn ffmpeg_command_line() {
    let c = audio_command("/t/in.wav", "/t/out.mp3");
    assert_eq!(c.program, "ffmpeg");
    assert_eq!(
        c.args,
        vec!["-y", "-i", "/t/in.wav", "-vn", "-acodec", "libmp3lame", "-b:a", "192k", "/t/out.mp3"]
    );
}

#[test]
fn soffice_command_line() {
    let c = document_command("-env:UserInstallation=file:///t/p", "/t", "/t/in.docx");
    assert_eq!(c.program, "soffice");
    assert_eq!(
        c.args,
        vec![
            "-env:UserInstallation=file:///t/p",
            "--headless",
            "--convert-to",
            "pdf",
            "--outdir",
            "/t",
            "/t/in.docx"
        ]
    );
}

#[test]
fn pdftoppm_command_line() {
    let c = pages_command("-png", "/t/in.pdf", "/t/id");
    assert_eq!(c.program, "pdftoppm");
    assert_eq!(c.args, vec!["-png", "-r", "150", "/t/in.pdf", "/t/id"]);
}

#[test]
fn profile_uri_for_unix_and_windows_paths() {
    assert_eq!(
        libreoffice_profile_arg("/tmp/.tmpAb/loprofile"),
        "-env:UserInstallation=file:///tmp/.tmpAb/loprofile"
    );
    assert_eq!(
        libreoffice_profile_arg("C:\\Users\\me\\Temp\\loprofile"),
        "-env:UserInstallation=file:///C:/Users/me/Temp/loprofile"
    );
    assert_eq!(libreoffice_profile_arg("\\\\srv\\share"), "-env:UserInstallation=file:////srv/share");
    assert_eq!(libreoffice_profile_arg(""), "-env:UserInstallation=file:///");
}

#[test]
fn outputs_by_kind() {
    let o = output_for(Kind::AudioToMp3, vec![1]);
    assert_eq!((o.filename.as_str(), o.content_type.as_str()), ("converted.mp3", "audio/mpeg"));
    assert_eq!(o.bytes, vec![1]);
    let o = output_for(Kind::DocToPdf, vec![]);
    assert_eq!((o.filename.as_str(), o.content_type.as_str()), ("converted.pdf", "application/pdf"));
    let o = output_for(Kind::PdfToImage, vec![]);
    assert_eq!(
        (o.filename.as_str(), o.content_type.as_str()),
        ("converted-images.zip", "application/zip")
    );
    let o = output_for(Kind::ImageToIcon, vec![]);
    assert_eq!((o.filename.as_str(), o.content_type.as_str()), ("app-icons.zip", "application/zip"));
}

#[test]
fn download_header() {
    assert_eq!(content_disposition("converted.mp3"), "attachment; filename=\"converted.mp3\"");
}

#[test]
fn command_outcomes() {
    assert!(command_outcome("ffmpeg", true).is_ok());
    let e = command_outcome("ffmpeg", false).err().unwrap();
    assert_eq!((e.status, e.message.as_str()), (500, "Chuyển đổi thất bại (ffmpeg)"));
}

#[test]
fn paths_in_the_job_directory() {
    assert_eq!(join_path("/tmp/x", "a.wav", '/'), "/tmp/x/a.wav");
    assert_eq!(join_path("/tmp/x/", "a.wav", '/'), "/tmp/x/a.wav");
    assert_eq!(join_path("", "a.wav", '/'), "a.wav");
    assert_eq!(join_path("C:\\t", "a.wav", '\\'), "C:\\t\\a.wav");
    assert_eq!(join_path("C:\\t\\", "a.wav", '\\'), "C:\\t\\a.wav");
    assert_eq!(join_path("C:/t/", "a.wav", '\\'), "C:/t/a.wav");
    let p = std::path::Path::new("/tmp/x").join("a.wav");
    assert_eq!(join_path("/tmp/x", "a.wav", std::path::MAIN_SEPARATOR), p.to_str().unwrap());
}

#[test]
fn job_commands_use_the_plan_names() {
    let id = "67e55044-10b1-426f-9247-bb680e5fe0c8".to_string();
    let p = plan_with_id(Kind::AudioToMp3, "wav", "mp3", id.clone()).ok().unwrap();
    let c = job_command(&p, Some("/t"), "/t", '/').unwrap();
    assert_eq!(c.program, "ffmpeg");
    assert_eq!(c.args[2], format!("/t/{id}.wav"));
    assert_eq!(c.args[8], format!("/t/{id}.mp3"));

    let p = plan_with_id(Kind::DocToPdf, "pptx", "pdf", id.clone()).ok().unwrap();
    let c = job_command(&p, Some("/t"), "/t", '/').unwrap();
    assert_eq!(c.program, "soffice");
    assert_eq!(
        c.args,
        vec![
            "-env:UserInstallation=file:///t/loprofile".to_string(),
            "--headless".to_string(),
            "--convert-to".to_string(),
            "pdf".to_string(),
            "--outdir".to_string(),
            "/t".to_string(),
            format!("/t/{id}.pptx"),
        ]
    );

    let p = plan_with_id(Kind::PdfToImage, "pdf", "jpg", id.clone()).ok().unwrap();
    let c = job_command(&p, Some("/t"), "/t", '/').unwrap();
    assert_eq!(c.program, "pdftoppm");
    assert_eq!(
        c.args,
        vec!["-jpeg".to_string(), "-r".to_string(), "150".to_string(), format!("/t/{id}.pdf"), format!("/t/{id}")]
    );

    let p = plan_with_id(Kind::ImageToIcon, "png", "app-icon", id).ok().unwrap();
    assert!(job_command(&p, Some("/t"), "/t", '/').is_none());
}

#[test]
fn job_commands_in_a_directory_that_is_not_utf8() {
    let id = "67e55044-10b1-426f-9247-bb680e5fe0c8".to_string();
    let p = plan_with_id(Kind::AudioToMp3, "wav", "mp3", id.clone()).ok().unwrap();
    let c = job_command(&p, None, "/t\u{fffd}", '/').unwrap();
    assert_eq!(c.args[2], "");
    assert_eq!(c.args[8], "");
    let p = plan_with_id(Kind::DocToPdf, "docx", "pdf", id).ok().unwrap();
    let c = job_command(&p, None, "/t\u{fffd}", '/').unwrap();
    assert_eq!(c.args[0], "-env:UserInstallation=file:///t\u{fffd}/loprofile");
    assert_eq!(c.args[5], "");
    assert_eq!(c.args[6], "");
}
