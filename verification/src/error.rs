//! The failures that the operations report.

use crate::text::concat;
use vstd::prelude::*;

verus! {

/// Why the credential store, or a file beside it, could not be handled.
#[derive(Debug, Clone, PartialEq, Eq)]
pub enum AuthError {
    /// The key-value store refused to open, to answer or to write.
    Database(String),
    /// A location could not be worked out from the environment.
    Environment(String),
    /// A credential update named no field to write.
    NoUpdates,
    /// A file could not be read, written or copied.
    Io(String),
}

impl AuthError {
    /// The text of the message, as mathematics.
    pub open spec fn message_text(self) -> Seq<char> {
        match self {
            AuthError::Database(detail) => "数据库错误: "@ + detail@,
            AuthError::Environment(detail) => "环境错误: "@ + detail@,
            AuthError::NoUpdates => "未提供任何更新值"@,
            AuthError::Io(detail) => "IO 错误: "@ + detail@,
        }
    }

    /// The message shown to the operator.
    pub fn message(&self) -> (r: String)
        ensures
            r@ == self.message_text(),
    {
        match self {
            AuthError::Database(detail) => concat("数据库错误: ", detail.as_str()),
            AuthError::Environment(detail) => concat("环境错误: ", detail.as_str()),
            AuthError::NoUpdates => "未提供任何更新值".to_owned(),
            AuthError::Io(detail) => concat("IO 错误: ", detail.as_str()),
        }
    }
}

/// Why the editor's process could not be started again.
#[derive(Debug, Clone, PartialEq, Eq)]
pub enum ProcessError {
    /// None of the conventional install locations holds the executable.
    NotFound,
    /// A process of the editor was still alive when the wait ran out.
    TerminationIncomplete,
    /// The executable was found and could not be started.
    SpawnFailed(String),
}

impl ProcessError {
    /// The text of the message, as mathematics.
    pub open spec fn message_text(self) -> Seq<char> {
        match self {
            ProcessError::NotFound => "未找到 Cursor 可执行文件"@,
            ProcessError::TerminationIncomplete => "无法正确关闭现有 Cursor 进程, 请手动重启 Cursor"@,
            ProcessError::SpawnFailed(_) => "启动 Cursor 失败"@,
        }
    }

    /// The message shown to the operator.
    pub fn message(&self) -> (r: String)
        ensures
            r@ == self.message_text(),
    {
        match self {
            ProcessError::NotFound => "未找到 Cursor 可执行文件".to_owned(),
            ProcessError::TerminationIncomplete => "无法正确关闭现有 Cursor 进程, 请手动重启 Cursor".to_owned(),
            ProcessError::SpawnFailed(_) => "启动 Cursor 失败".to_owned(),
        }
    }
}

} // verus!
