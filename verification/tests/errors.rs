use rustconvert::error::{AppError, Failure};

fn answer(f: Failure) -> (u16, String) {
    let e = f.into_app_error();
    (e.status, e.message)
}

#[test]
fn bad_and_internal_statuses() {
    let b = AppError::bad("x".to_string());
    assert_eq!((b.status, b.message.as_str()), (400, "x"));
    let i = AppError::internal("y".to_string());
    assert_eq!((i.status, i.message.as_str()), (500, "y"));
}

#[test]
fn failures_blaming_the_request_answer_400() {
    let d = || "boom".to_string();
    assert_eq!(answer(Failure::Multipart(d())), (400, "Multipart lỗi: boom".to_string()));
    assert_eq!(answer(Failure::ReadFile(d())), (400, "Đọc file lỗi: boom".to_string()));
    assert_eq!(answer(Failure::ReadText(d())), (400, "Đọc text field lỗi: boom".to_string()));
    assert_eq!(answer(Failure::MissingFrom), (400, "Thiếu tham số 'from'".to_string()));
    assert_eq!(answer(Failure::MissingTo), (400, "Thiếu tham số 'to'".to_string()));
    assert_eq!(answer(Failure::MissingFile), (400, "Thiếu file upload".to_string()));
    assert_eq!(answer(Failure::EmptyFile), (400, "File rỗng".to_string()));
    assert_eq!(
        answer(Failure::Unsupported { from: "a".to_string(), to: "b".to_string() }),
        (400, "Không hỗ trợ chuyển 'a' sang 'b'".to_string())
    );
    assert_eq!(answer(Failure::InvalidImageFormat), (400, "Định dạng ảnh không hợp lệ".to_string()));
    assert_eq!(answer(Failure::UnreadableImage(d())), (400, "Không đọc được ảnh: boom".to_string()));
}

#[test]
fn failures_on_the_server_answer_500() {
    let d = || "boom".to_string();
    assert_eq!(answer(Failure::TempDir(d())), (500, "Không tạo temp dir: boom".to_string()));
    assert_eq!(answer(Failure::WriteTemp(d())), (500, "Ghi file tạm lỗi: boom".to_string()));
    assert_eq!(answer(Failure::BuildResponse(d())), (500, "Build response lỗi: boom".to_string()));
    assert_eq!(answer(Failure::Task(d())), (500, "Task lỗi: boom".to_string()));
    assert_eq!(answer(Failure::ReadDir(d())), (500, "Đọc thư mục lỗi: boom".to_string()));
    assert_eq!(answer(Failure::NoPages), (500, "Không sinh được trang ảnh nào".to_string()));
    assert_eq!(answer(Failure::Internal(d())), (500, "boom".to_string()));
    assert_eq!(answer(Failure::EncodePng(d())), (500, "Encode PNG lỗi: boom".to_string()));
    assert_eq!(
        answer(Failure::Launch { program: "ffmpeg".to_string(), detail: d() }),
        (500, "Không chạy được 'ffmpeg' (đã cài chưa?): boom".to_string())
    );
    assert_eq!(answer(Failure::CommandFailed("soffice".to_string())), (500, "Chuyển đổi thất bại (soffice)".to_string()));
    assert_eq!(answer(Failure::ReadResult(d())), (500, "Không đọc được kết quả: boom".to_string()));
}
