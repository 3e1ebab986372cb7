//! What a failed request is answered: an HTTP status and a message.

use vstd::prelude::*;
use crate::text::{join2, join3};

verus! {

/// HTTP status of an answer that blames the request.
pub const BAD_REQUEST: u16 = 400;

/// HTTP status of an answer that blames the server.
pub const INTERNAL_SERVER_ERROR: u16 = 500;

/// An error answer: the HTTP status code and the message sent as the body.
#[derive(Debug)]
pub struct AppError {
    pub status: u16,
    pub message: String,
}

impl AppError {
    /// An error caused by the request (400).
    pub fn bad(msg: String) -> (r: Self)
        ensures
            r.status == BAD_REQUEST,
            r.message == msg,
    {
        AppError { status: BAD_REQUEST, message: msg }
    }

    /// An error on the server's side (500).
    pub fn internal(msg: String) -> (r: Self)
        ensures
            r.status == INTERNAL_SERVER_ERROR,
            r.message == msg,
    {
        AppError { status: INTERNAL_SERVER_ERROR, message: msg }
    }
}

/// Every way in which handling a conversion request can fail. Variants that
/// carry a `String` carry the text of the underlying error.
#[derive(Debug)]
pub enum Failure {
    /// The multipart body could not be read.
    Multipart(String),
    /// The uploaded file's bytes could not be read.
    ReadFile(String),
    /// A text field could not be read.
    ReadText(String),
    /// No `from` field.
    MissingFrom,
    /// No `to` field.
    MissingTo,
    /// No `file` field.
    MissingFile,
    /// The uploaded file is empty.
    EmptyFile,
    /// The pair (`from`, `to`) is not on the whitelist.
    Unsupported { from: String, to: String },
    /// The temporary directory could not be made.
    TempDir(String),
    /// The uploaded file could not be written to the temporary directory.
    WriteTemp(String),
    /// The HTTP response could not be built.
    BuildResponse(String),
    /// The requested image format is neither JPG nor PNG.
    InvalidImageFormat,
    /// A blocking task did not complete.
    Task(String),
    /// The temporary directory could not be listed.
    ReadDir(String),
    /// The PDF rendering produced no page image.
    NoPages,
    /// Any other server-side error, answered with its own text.
    Internal(String),
    /// The uploaded image could not be decoded.
    UnreadableImage(String),
    /// A resized icon could not be encoded as PNG.
    EncodePng(String),
    /// The external program could not be started.
    Launch { program: String, detail: String },
    /// The external program ran and reported failure.
    CommandFailed(String),
    /// The converted file could not be read back.
    ReadResult(String),
}

/// Whether a failure is the client's fault (400) rather than the server's (500).
pub open spec fn blames_request(f: Failure) -> bool {
    match f {
        Failure::Multipart(_) => true,
        Failure::ReadFile(_) => true,
        Failure::ReadText(_) => true,
        Failure::MissingFrom => true,
        Failure::MissingTo => true,
        Failure::MissingFile => true,
        Failure::EmptyFile => true,
        Failure::Unsupported { .. } => true,
        Failure::InvalidImageFormat => true,
        Failure::UnreadableImage(_) => true,
        _ => false,
    }
}

pub open spec fn failure_status(f: Failure) -> u16 {
    if blames_request(f) {
        BAD_REQUEST
    } else {
        INTERNAL_SERVER_ERROR
    }
}

/// The message that refuses the pair (`from`, `to`).
pub open spec fn unsupported_message(from: Seq<char>, to: Seq<char>) -> Seq<char> {
    "Không hỗ trợ chuyển '"@ + from + "' sang '"@ + to + "'"@
}

/// The message that answers each failure.
pub open spec fn failure_message(f: Failure) -> Seq<char> {
    match f {
        Failure::Multipart(d) => "Multipart lỗi: "@ + d@,
        Failure::ReadFile(d) => "Đọc file lỗi: "@ + d@,
        Failure::ReadText(d) => "Đọc text field lỗi: "@ + d@,
        Failure::MissingFrom => "Thiếu tham số 'from'"@,
        Failure::MissingTo => "Thiếu tham số 'to'"@,
        Failure::MissingFile => "Thiếu file upload"@,
        Failure::EmptyFile => "File rỗng"@,
        Failure::Unsupported { from, to } => unsupported_message(from@, to@),
        Failure::TempDir(d) => "Không tạo temp dir: "@ + d@,
        Failure::WriteTemp(d) => "Ghi file tạm lỗi: "@ + d@,
        Failure::BuildResponse(d) => "Build response lỗi: "@ + d@,
        Failure::InvalidImageFormat => "Định dạng ảnh không hợp lệ"@,
        Failure::Task(d) => "Task lỗi: "@ + d@,
        Failure::ReadDir(d) => "Đọc thư mục lỗi: "@ + d@,
        Failure::NoPages => "Không sinh được trang ảnh nào"@,
        Failure::Internal(d) => d@,
        Failure::UnreadableImage(d) => "Không đọc được ảnh: "@ + d@,
        Failure::EncodePng(d) => "Encode PNG lỗi: "@ + d@,
        Failure::Launch { program, detail } => "Không chạy được '"@ + program@
            + "' (đã cài chưa?): "@ + detail@,
        Failure::CommandFailed(p) => "Chuyển đổi thất bại ("@ + p@ + ")"@,
        Failure::ReadResult(d) => "Không đọc được kết quả: "@ + d@,
    }
}

/// Whether `e` is the answer to `f`.
pub open spec fn answers(e: AppError, f: Failure) -> bool {
    e.status == failure_status(f) && e.message@ == failure_message(f)
}

impl Failure {
    /// The error answer for this failure.
    pub fn into_app_error(self) -> (r: AppError)
        ensures
            answers(r, self),
    {
        let ghost f = self;
        match self {
            Failure::Multipart(d) => AppError::bad(join2("Multipart lỗi: ", &d)),
            Failure::ReadFile(d) => AppError::bad(join2("Đọc file lỗi: ", &d)),
            Failure::ReadText(d) => AppError::bad(join2("Đọc text field lỗi: ", &d)),
            Failure::MissingFrom => AppError::bad(String::from_str("Thiếu tham số 'from'")),
            Failure::MissingTo => AppError::bad(String::from_str("Thiếu tham số 'to'")),
            Failure::MissingFile => AppError::bad(String::from_str("Thiếu file upload")),
            Failure::EmptyFile => AppError::bad(String::from_str("File rỗng")),
            Failure::Unsupported { from, to } => {
                let head = join3("Không hỗ trợ chuyển '", &from, "' sang '");
                AppError::bad(join3(&head, &to, "'"))
            },
            Failure::TempDir(d) => AppError::internal(join2("Không tạo temp dir: ", &d)),
            Failure::WriteTemp(d) => AppError::internal(join2("Ghi file tạm lỗi: ", &d)),
            Failure::BuildResponse(d) => AppError::internal(join2("Build response lỗi: ", &d)),
            Failure::InvalidImageFormat => AppError::bad(
                String::from_str("Định dạng ảnh không hợp lệ"),
            ),
            Failure::Task(d) => AppError::internal(join2("Task lỗi: ", &d)),
            Failure::ReadDir(d) => AppError::internal(join2("Đọc thư mục lỗi: ", &d)),
            Failure::NoPages => AppError::internal(
                String::from_str("Không sinh được trang ảnh nào"),
            ),
            Failure::Internal(d) => AppError::internal(d),
            Failure::UnreadableImage(d) => AppError::bad(join2("Không đọc được ảnh: ", &d)),
            Failure::EncodePng(d) => AppError::internal(join2("Encode PNG lỗi: ", &d)),
            Failure::Launch { program, detail } => {
                let head = join3("Không chạy được '", &program, "' (đã cài chưa?): ");
                AppError::internal(join2(&head, &detail))
            },
            Failure::CommandFailed(p) => AppError::internal(join3("Chuyển đổi thất bại (", &p, ")")),
            Failure::ReadResult(d) => AppError::internal(join2("Không đọc được kết quả: ", &d)),
        }
    }
}

} // verus!
