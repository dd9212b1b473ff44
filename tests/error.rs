use gm_master::error::{AppError, ErrorCode, ErrorDetails};

#[test]
fn every_kind_has_its_code() {
    let cases = [
        (AppError::RequestError("x".into()), ErrorCode::Network, 1000),
        (AppError::ParseError("x".into()), ErrorCode::Parse, 2000),
        (AppError::IoError("x".into()), ErrorCode::IO, 3000),
        (AppError::DownloadError("x".into()), ErrorCode::Download, 4000),
        (AppError::ConfigError("x".into()), ErrorCode::Config, 5000),
        (AppError::JsonError("x".into()), ErrorCode::Json, 6000),
        (AppError::ZipError("x".into()), ErrorCode::Zip, 7000),
        (AppError::ValidationError("x".into()), ErrorCode::Validation, 8000),
        (AppError::NotFoundError("x".into()), ErrorCode::NotFound, 9000),
        (AppError::PermissionError("x".into()), ErrorCode::Permission, 10000),
        (AppError::ExecutionError("x".into()), ErrorCode::Execution, 11000),
        (AppError::UnknownError("x".into()), ErrorCode::Unknown, 99999),
    ];
    for (e, code, value) in cases {
        assert_eq!(e.error_code(), code);
        assert_eq!(e.error_code().value(), value);
    }
}

#[test]
fn user_messages_are_stable_and_distinct_from_details() {
    let e = AppError::IoError("disk full at /tmp/x".into());
    assert_eq!(e.user_message(), "文件读写错误，请检查磁盘空间和权限");
    assert_eq!(e.to_string(), "IO操作错误: disk full at /tmp/x");
    assert_eq!(AppError::ValidationError("空文件".into()).user_message(), "验证失败: 空文件");
    assert_eq!(AppError::NotFoundError("t1".into()).user_message(), "未找到资源: t1");
    assert_eq!(AppError::DownloadError("boom".into()).user_message(), "下载失败，请稍后重试");
}

#[test]
fn details_turn_archive_errors_into_download_errors() {
    let e = AppError::ZipError("bad header".into()).with_details("no central directory");
    assert_eq!(e, AppError::DownloadError("no central directory".into()));
    let other = AppError::IoError("x".into()).with_details("ignored");
    assert_eq!(other, AppError::IoError("x".into()));
}

#[test]
fn responses_carry_code_message_details_and_time() {
    let r = AppError::NotFoundError("t9".into()).response("2024-01-02 03:04:05".to_string());
    assert_eq!(r.code, ErrorCode::NotFound);
    assert_eq!(r.message, "未找到资源: t9");
    assert_eq!(r.details, "资源未找到: t9");
    assert_eq!(r.timestamp, "2024-01-02 03:04:05");
}

#[test]
fn default_details_hold_only_the_time() {
    let d = ErrorDetails::default();
    assert!(d.custom_message.is_none());
    assert!(d.source.is_none());
    assert_eq!(d.time.len(), 19);
}
