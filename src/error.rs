//! Error kinds, their stable codes and the messages shown to users.
use vstd::prelude::*;
use crate::clock::local_now_display;

verus! {

/// Machine-readable kind of an error, stable across releases.
#[derive(Clone, Copy, Debug, PartialEq, Eq, Structural)]
pub enum ErrorCode {
    Network,
    Parse,
    IO,
    Download,
    Config,
    Json,
    Zip,
    Validation,
    NotFound,
    Permission,
    Execution,
    Unknown,
}

pub open spec fn code_number(c: ErrorCode) -> u32 {
    match c {
        ErrorCode::Network => 1000,
        ErrorCode::Parse => 2000,
        ErrorCode::IO => 3000,
        ErrorCode::Download => 4000,
        ErrorCode::Config => 5000,
        ErrorCode::Json => 6000,
        ErrorCode::Zip => 7000,
        ErrorCode::Validation => 8000,
        ErrorCode::NotFound => 9000,
        ErrorCode::Permission => 10000,
        ErrorCode::Execution => 11000,
        ErrorCode::Unknown => 99999,
    }
}

impl ErrorCode {
    /// The number under which the presentation layer knows this kind.
    pub fn value(&self) -> (r: u32)
        ensures
            r == code_number(*self),
    {
        match self {
            ErrorCode::Network => 1000,
            ErrorCode::Parse => 2000,
            ErrorCode::IO => 3000,
            ErrorCode::Download => 4000,
            ErrorCode::Config => 5000,
            ErrorCode::Json => 6000,
            ErrorCode::Zip => 7000,
            ErrorCode::Validation => 8000,
            ErrorCode::NotFound => 9000,
            ErrorCode::Permission => 10000,
            ErrorCode::Execution => 11000,
            ErrorCode::Unknown => 99999,
        }
    }
}

/// An error of the library. Each variant carries the technical detail.
#[derive(Clone, Debug, PartialEq, Eq)]
pub enum AppError {
    RequestError(String),
    ParseError(String),
    IoError(String),
    DownloadError(String),
    ConfigError(String),
    JsonError(String),
    ZipError(String),
    ValidationError(String),
    NotFoundError(String),
    PermissionError(String),
    ExecutionError(String),
    UnknownError(String),
}

pub type AppResult<T> = Result<T, AppError>;

pub open spec fn code_of(e: AppError) -> ErrorCode {
    match e {
        AppError::RequestError(_) => ErrorCode::Network,
        AppError::ParseError(_) => ErrorCode::Parse,
        AppError::IoError(_) => ErrorCode::IO,
        AppError::DownloadError(_) => ErrorCode::Download,
        AppError::ConfigError(_) => ErrorCode::Config,
        AppError::JsonError(_) => ErrorCode::Json,
        AppError::ZipError(_) => ErrorCode::Zip,
        AppError::ValidationError(_) => ErrorCode::Validation,
        AppError::NotFoundError(_) => ErrorCode::NotFound,
        AppError::PermissionError(_) => ErrorCode::Permission,
        AppError::ExecutionError(_) => ErrorCode::Execution,
        AppError::UnknownError(_) => ErrorCode::Unknown,
    }
}

/// The technical detail an error carries.
pub open spec fn detail_of(e: AppError) -> Seq<char> {
    match e {
        AppError::RequestError(m) => m@,
        AppError::ParseError(m) => m@,
        AppError::IoError(m) => m@,
        AppError::DownloadError(m) => m@,
        AppError::ConfigError(m) => m@,
        AppError::JsonError(m) => m@,
        AppError::ZipError(m) => m@,
        AppError::ValidationError(m) => m@,
        AppError::NotFoundError(m) => m@,
        AppError::PermissionError(m) => m@,
        AppError::ExecutionError(m) => m@,
        AppError::UnknownError(m) => m@,
    }
}

/// The heading that the full description of an error starts with.
pub open spec fn heading_of(c: ErrorCode) -> Seq<char> {
    match c {
        ErrorCode::Network => "网络请求失败: "@,
        ErrorCode::Parse => "HTML解析失败: "@,
        ErrorCode::IO => "IO操作错误: "@,
        ErrorCode::Download => "下载错误: "@,
        ErrorCode::Config => "配置错误: "@,
        ErrorCode::Json => "JSON解析错误: "@,
        ErrorCode::Zip => "压缩文件错误: "@,
        ErrorCode::Validation => "验证失败: "@,
        ErrorCode::NotFound => "资源未找到: "@,
        ErrorCode::Permission => "权限错误: "@,
        ErrorCode::Execution => "执行错误: "@,
        ErrorCode::Unknown => "未知错误: "@,
    }
}

/// The stable message for users; only validation and not-found errors show
/// their detail.
pub open spec fn user_message_of(e: AppError) -> Seq<char> {
    match e {
        AppError::RequestError(_) => "网络连接异常，请检查您的网络设置后重试"@,
        AppError::ParseError(_) => "数据解析失败，网站结构可能已更改"@,
        AppError::IoError(_) => "文件读写错误，请检查磁盘空间和权限"@,
        AppError::DownloadError(_) => "下载失败，请稍后重试"@,
        AppError::ConfigError(_) => "配置错误，应用程序设置可能已损坏"@,
        AppError::JsonError(_) => "数据格式错误，无法解析JSON数据"@,
        AppError::ZipError(_) => "压缩文件处理失败，文件可能已损坏"@,
        AppError::ValidationError(m) => "验证失败: "@ + m@,
        AppError::NotFoundError(m) => "未找到资源: "@ + m@,
        AppError::PermissionError(_) => "权限不足，请以管理员身份运行应用程序"@,
        AppError::ExecutionError(_) => "执行操作失败，请确保系统满足运行要求"@,
        AppError::UnknownError(_) => "发生未知错误，请尝试重启应用程序"@,
    }
}

impl AppError {
    /// The machine-readable kind of this error.
    pub fn error_code(&self) -> (r: ErrorCode)
        ensures
            r == code_of(*self),
    {
        match self {
            AppError::RequestError(_) => ErrorCode::Network,
            AppError::ParseError(_) => ErrorCode::Parse,
            AppError::IoError(_) => ErrorCode::IO,
            AppError::DownloadError(_) => ErrorCode::Download,
            AppError::ConfigError(_) => ErrorCode::Config,
            AppError::JsonError(_) => ErrorCode::Json,
            AppError::ZipError(_) => ErrorCode::Zip,
            AppError::ValidationError(_) => ErrorCode::Validation,
            AppError::NotFoundError(_) => ErrorCode::NotFound,
            AppError::PermissionError(_) => ErrorCode::Permission,
            AppError::ExecutionError(_) => ErrorCode::Execution,
            AppError::UnknownError(_) => ErrorCode::Unknown,
        }
    }

    /// A copy of this error.
    pub fn duplicate(&self) -> (r: AppError)
        ensures
            r == *self,
    {
        match self {
            AppError::RequestError(m) => AppError::RequestError(m.clone()),
            AppError::ParseError(m) => AppError::ParseError(m.clone()),
            AppError::IoError(m) => AppError::IoError(m.clone()),
            AppError::DownloadError(m) => AppError::DownloadError(m.clone()),
            AppError::ConfigError(m) => AppError::ConfigError(m.clone()),
            AppError::JsonError(m) => AppError::JsonError(m.clone()),
            AppError::ZipError(m) => AppError::ZipError(m.clone()),
            AppError::ValidationError(m) => AppError::ValidationError(m.clone()),
            AppError::NotFoundError(m) => AppError::NotFoundError(m.clone()),
            AppError::PermissionError(m) => AppError::PermissionError(m.clone()),
            AppError::ExecutionError(m) => AppError::ExecutionError(m.clone()),
            AppError::UnknownError(m) => AppError::UnknownError(m.clone()),
        }
    }

    /// The technical detail this error carries.
    pub fn detail(&self) -> (r: &String)
        ensures
            r@ == detail_of(*self),
    {
        match self {
            AppError::RequestError(m) => m,
            AppError::ParseError(m) => m,
            AppError::IoError(m) => m,
            AppError::DownloadError(m) => m,
            AppError::ConfigError(m) => m,
            AppError::JsonError(m) => m,
            AppError::ZipError(m) => m,
            AppError::ValidationError(m) => m,
            AppError::NotFoundError(m) => m,
            AppError::PermissionError(m) => m,
            AppError::ExecutionError(m) => m,
            AppError::UnknownError(m) => m,
        }
    }

    /// Attaches a clearer description: an archive error becomes a download
    /// error that carries `details`; any other error is kept as it is.
    pub fn with_details(self, details: &str) -> (r: AppError)
        ensures
            (self is ZipError) ==> (r is DownloadError) && r->DownloadError_0@ == details@,
            !(self is ZipError) ==> r == self,
    {
        match self {
            AppError::ZipError(_) => AppError::DownloadError(String::from_str(details)),
            _ => self,
        }
    }

    /// The message for users, independent of the technical detail except for
    /// validation and not-found errors.
    pub fn user_message(&self) -> (r: String)
        ensures
            r@ == user_message_of(*self),
    {
        match self {
            AppError::RequestError(_) => String::from_str("网络连接异常，请检查您的网络设置后重试"),
            AppError::ParseError(_) => String::from_str("数据解析失败，网站结构可能已更改"),
            AppError::IoError(_) => String::from_str("文件读写错误，请检查磁盘空间和权限"),
            AppError::DownloadError(_) => String::from_str("下载失败，请稍后重试"),
            AppError::ConfigError(_) => String::from_str("配置错误，应用程序设置可能已损坏"),
            AppError::JsonError(_) => String::from_str("数据格式错误，无法解析JSON数据"),
            AppError::ZipError(_) => String::from_str("压缩文件处理失败，文件可能已损坏"),
            AppError::ValidationError(m) => String::from_str("验证失败: ").concat(m.as_str()),
            AppError::NotFoundError(m) => String::from_str("未找到资源: ").concat(m.as_str()),
            AppError::PermissionError(_) => String::from_str("权限不足，请以管理员身份运行应用程序"),
            AppError::ExecutionError(_) => String::from_str("执行操作失败，请确保系统满足运行要求"),
            AppError::UnknownError(_) => String::from_str("发生未知错误，请尝试重启应用程序"),
        }
    }

    /// The full technical description: the kind's heading, then the detail.
    pub fn to_string(&self) -> (r: String)
        ensures
            r@ == heading_of(code_of(*self)) + detail_of(*self),
    {
        let heading = match self.error_code() {
            ErrorCode::Network => "网络请求失败: ",
            ErrorCode::Parse => "HTML解析失败: ",
            ErrorCode::IO => "IO操作错误: ",
            ErrorCode::Download => "下载错误: ",
            ErrorCode::Config => "配置错误: ",
            ErrorCode::Json => "JSON解析错误: ",
            ErrorCode::Zip => "压缩文件错误: ",
            ErrorCode::Validation => "验证失败: ",
            ErrorCode::NotFound => "资源未找到: ",
            ErrorCode::Permission => "权限错误: ",
            ErrorCode::Execution => "执行错误: ",
            ErrorCode::Unknown => "未知错误: ",
        };
        String::from_str(heading).concat(self.detail().as_str())
    }

    /// What is reported for this error to the presentation layer, stamped
    /// with `timestamp`.
    pub fn response(&self, timestamp: String) -> (r: ErrorResponse)
        ensures
            r.code == code_of(*self),
            r.message@ == user_message_of(*self),
            r.details@ == heading_of(code_of(*self)) + detail_of(*self),
            r.timestamp == timestamp,
    {
        ErrorResponse {
            code: self.error_code(),
            message: self.user_message(),
            details: self.to_string(),
            timestamp,
        }
    }
}

/// The report of an error for the presentation layer: its kind, the stable
/// message, the technical description and when it happened.
#[derive(Clone, Debug)]
pub struct ErrorResponse {
    pub code: ErrorCode,
    pub message: String,
    pub details: String,
    pub timestamp: String,
}

/// Extra context kept beside an error.
#[derive(Clone, Debug)]
pub struct ErrorDetails {
    pub custom_message: Option<String>,
    pub time: String,
    pub source: Option<String>,
}

impl Default for ErrorDetails {
    /// No message and no source, stamped with the local time now.
    fn default() -> (r: ErrorDetails)
        ensures
            r.custom_message is None,
            r.source is None,
    {
        ErrorDetails { custom_message: None, time: local_now_display(), source: None }
    }
}

} // verus!
