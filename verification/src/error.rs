//! The ways in which a request fails.
use vstd::prelude::*;
use vstd::string::*;

verus! {

/// Why a request could not be served.
#[derive(Debug)]
pub enum ErrorKind {
    /// The machine failed, for example a disk could not be read.
    MachineError(String),
    /// The request broke a rule.
    LogicalError(String),
    /// An operation failed, for example the origin could not be asked.
    OperateError(String),
}

/// An error, by the characters of its message.
pub enum ErrorView {
    Machine(Seq<char>),
    Logical(Seq<char>),
    Operate(Seq<char>),
}

impl View for ErrorKind {
    type V = ErrorView;

    open spec fn view(&self) -> ErrorView {
        match self {
            ErrorKind::MachineError(m) => ErrorView::Machine(m@),
            ErrorKind::LogicalError(m) => ErrorView::Logical(m@),
            ErrorKind::OperateError(m) => ErrorView::Operate(m@),
        }
    }
}

/// The debug form of a text: in double quotes, with escapes.
pub uninterp spec fn debug_text(text: Seq<char>) -> Seq<char>;

/// `std::fmt::Debug` for `str`: the text in double quotes, with escapes.
#[verifier::external_body]
fn debug_of(text: &str) -> (quoted: String)
    ensures
        quoted@ == debug_text(text@),
{
    format!("{:?}", text)
}

impl ErrorView {
    /// The message.
    pub open spec fn message(self) -> Seq<char> {
        match self {
            ErrorView::Machine(m) => m,
            ErrorView::Logical(m) => m,
            ErrorView::Operate(m) => m,
        }
    }

    /// The name of the kind of error.
    pub open spec fn kind_name(self) -> Seq<char> {
        match self {
            ErrorView::Machine(_) => "MachineError"@,
            ErrorView::Logical(_) => "LogicalError"@,
            ErrorView::Operate(_) => "OperateError"@,
        }
    }

    /// How an error is written, once its message is quoted.
    pub open spec fn with_quoted(self, quoted: Seq<char>) -> Seq<char> {
        self.kind_name() + "("@ + quoted + ")"@
    }

    /// How an error is written.
    pub open spec fn text(self) -> Seq<char> {
        self.with_quoted(debug_text(self.message()))
    }
}

impl ErrorKind {
    /// How the error is written, once its message is quoted.
    pub fn text_with(&self, quoted: &str) -> (text: String)
        ensures
            text@ == self@.with_quoted(quoted@),
    {
        let name: &str = match self {
            ErrorKind::MachineError(_) => "MachineError",
            ErrorKind::LogicalError(_) => "LogicalError",
            ErrorKind::OperateError(_) => "OperateError",
        };
        let mut text: String = name.to_owned();
        text.append("(");
        text.append(quoted);
        text.append(")");
        text
    }

    /// How the error is written.
    pub fn text(&self) -> (text: String)
        ensures
            text@ == self@.text(),
    {
        let quoted: String = match self {
            ErrorKind::MachineError(m) => debug_of(m.as_str()),
            ErrorKind::LogicalError(m) => debug_of(m.as_str()),
            ErrorKind::OperateError(m) => debug_of(m.as_str()),
        };
        self.text_with(quoted.as_str())
    }
}

/// An error is written with the name of its kind and its message in quotes.
pub proof fn law_errors_are_written(message: Seq<char>)
    ensures
        ErrorView::Machine(message).text() == "MachineError("@ + debug_text(message) + ")"@,
        ErrorView::Logical(message).text() == "LogicalError("@ + debug_text(message) + ")"@,
        ErrorView::Operate(message).text() == "OperateError("@ + debug_text(message) + ")"@,
{
    reveal_strlit("MachineError");
    reveal_strlit("LogicalError");
    reveal_strlit("OperateError");
    reveal_strlit("MachineError(");
    reveal_strlit("LogicalError(");
    reveal_strlit("OperateError(");
    reveal_strlit("(");
    assert("MachineError"@ + "("@ =~= "MachineError("@);
    assert("LogicalError"@ + "("@ =~= "LogicalError("@);
    assert("OperateError"@ + "("@ =~= "OperateError("@);
}

} // verus!
